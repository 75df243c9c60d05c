//! A first-fit allocator of contiguous ranges inside a linear buffer.
//!
//! Free and used regions are kept in ordered maps from the start of a region
//! to its length.  Allocation takes the free region with the lowest start that
//! is large enough; freeing a region merges it with the free regions that end
//! where it starts and start where it ends.
use std::collections::BTreeMap;
use vstd::prelude::*;
use vstd::std_specs::btree::increasing_seq;
use vstd::std_specs::iter::IteratorSpec;

verus! {

broadcast use vstd::std_specs::btree::group_btree_axioms;

/// A range `[start, end)` handed out by a [`LinearBlockAllocator`].
#[derive(Debug, Clone, Copy)]
pub struct LinearBlockAllocation {
    pub start: u64,
    pub end: u64,
}

/// First-fit allocator over the range `[0, total_size)`.
pub struct LinearBlockAllocator {
    total_size: u64,
    /// start -> length of every free region
    free_regions: BTreeMap<u64, u64>,
    /// start -> length of every allocated region
    used_regions: BTreeMap<u64, u64>,
}

/// The mathematical state of an allocator: its size and its two region maps.
pub struct AllocatorModel {
    pub total_size: u64,
    pub free: Map<u64, u64>,
    pub used: Map<u64, u64>,
}

/// The two ranges `[a, a + la)` and `[b, b + lb)` share no position.
pub open spec fn disjoint(a: u64, la: u64, b: u64, lb: u64) -> bool {
    la == 0 || lb == 0 || a + la <= b || b + lb <= a
}

/// `start` is the lowest start of a region in `free` whose length is at least `size`.
pub open spec fn is_first_fit(free: Map<u64, u64>, size: u64, start: u64) -> bool {
    &&& free.contains_key(start)
    &&& free[start] >= size
    &&& forall|k: u64| #[trigger] free.contains_key(k) && free[k] >= size ==> start <= k
}

/// Some region of `free` is at least `size` long.
pub open spec fn has_fit(free: Map<u64, u64>, size: u64) -> bool {
    exists|k: u64| #[trigger] free.contains_key(k) && free[k] >= size
}

/// The region of `free` that starts at `s` lies strictly before `start` and ends exactly there.
pub open spec fn ends_at(free: Map<u64, u64>, s: u64, start: u64) -> bool {
    free.contains_key(s) && s < start && s + free[s] == start
}

/// Some region of `free` lies before `start` and ends exactly there.
pub open spec fn has_prev(free: Map<u64, u64>, start: u64) -> bool {
    exists|s: u64| #[trigger] ends_at(free, s, start)
}

/// `p` is the greatest start among the regions of `free` that end exactly at `start`.
pub open spec fn is_prev(free: Map<u64, u64>, start: u64, p: u64) -> bool {
    &&& ends_at(free, p, start)
    &&& forall|s: u64| #[trigger] ends_at(free, s, start) ==> s <= p
}

/// The greatest start among the regions of `free` that end exactly at `start`.
pub open spec fn prev_key(free: Map<u64, u64>, start: u64) -> u64 {
    choose|p: u64| is_prev(free, start, p)
}

/// The free map after the first `size` positions of the free region at `s` were taken.
pub open spec fn carve(free: Map<u64, u64>, s: u64, size: u64) -> Map<u64, u64> {
    if free[s] > size {
        free.remove(s).insert((s + size) as u64, (free[s] - size) as u64)
    } else {
        free.remove(s)
    }
}

/// The free map after `[start, end)` was returned to it: the region that ends at `start`
/// (the one with the greatest start) and the region that starts at `end` are merged into it.
pub open spec fn release(free: Map<u64, u64>, start: u64, end: u64) -> Map<u64, u64> {
    let merged_prev = has_prev(free, start);
    let new_start = if merged_prev { prev_key(free, start) } else { start };
    let f1 = if merged_prev { free.remove(new_start) } else { free };
    let merged_next = f1.contains_key(end);
    let new_end: u64 = if merged_next { (end + f1[end]) as u64 } else { end };
    let f2 = if merged_next { f1.remove(end) } else { f1 };
    f2.insert(new_start, (new_end - new_start) as u64)
}

impl AllocatorModel {
    /// No free region reaches past the largest `u64`.
    pub open spec fn no_overflow(self) -> bool {
        forall|k: u64| #[trigger] self.free.contains_key(k) ==> k + self.free[k] <= u64::MAX
    }

    /// Every region lies inside `[0, total_size)`, and no two non-empty regions overlap.
    pub open spec fn sound(self) -> bool {
        &&& forall|k: u64| #[trigger]
            self.free.contains_key(k) ==> k + self.free[k] <= self.total_size
        &&& forall|k: u64| #[trigger]
            self.used.contains_key(k) ==> k + self.used[k] <= self.total_size
        &&& forall|a: u64, b: u64|
            #[trigger] self.free.contains_key(a) && #[trigger] self.free.contains_key(b) && a != b
                ==> disjoint(a, self.free[a], b, self.free[b])
        &&& forall|a: u64, b: u64|
            #[trigger] self.used.contains_key(a) && #[trigger] self.used.contains_key(b) && a != b
                ==> disjoint(a, self.used[a], b, self.used[b])
        &&& forall|a: u64, b: u64|
            #[trigger] self.free.contains_key(a) && #[trigger] self.used.contains_key(b)
                ==> disjoint(a, self.free[a], b, self.used[b])
    }

    /// Sound, every free region is non-empty, and no free region ends where another starts.
    pub open spec fn compact(self) -> bool {
        &&& self.sound()
        &&& forall|k: u64| #[trigger] self.free.contains_key(k) ==> self.free[k] > 0
        &&& forall|a: u64, b: u64|
            #[trigger] self.free.contains_key(a) && #[trigger] self.free.contains_key(b) ==> a
                + self.free[a] != b
    }

    /// `a` is a live allocation of this state: its start is recorded as used with its length.
    pub open spec fn is_live(self, a: LinearBlockAllocation) -> bool {
        &&& a.start <= a.end
        &&& self.used.contains_key(a.start)
        &&& self.used[a.start] == a.end - a.start
    }

    /// `a` overlaps no non-empty allocation of this state and lies inside the buffer.
    pub open spec fn is_fresh(self, a: LinearBlockAllocation) -> bool {
        &&& a.end <= self.total_size
        &&& forall|k: u64| #[trigger]
            self.used.contains_key(k) ==> disjoint(a.start, (a.end - a.start) as u64, k, self.used[k])
    }

    /// Every position of `[0, total_size)` lies in a free or a used region; with `sound`, the
    /// non-empty regions thus tile the buffer.
    pub open spec fn tiled(self) -> bool {
        forall|x: int|
            0 <= x < self.total_size ==> #[trigger] in_region(self.free, x) || in_region(self.used, x)
    }
}

/// Position `x` lies in one of the regions of `m`.
pub open spec fn in_region(m: Map<u64, u64>, x: int) -> bool {
    exists|k: u64| #[trigger] m.contains_key(k) && k <= x < k + m[k]
}

/// What `allocate(size)` does to the state `old`, giving `result` and the state `new`.
pub open spec fn allocate_post(
    old: AllocatorModel,
    size: u64,
    result: Option<LinearBlockAllocation>,
    new: AllocatorModel,
) -> bool {
    &&& new.total_size == old.total_size
    &&& match result {
        None => !has_fit(old.free, size) && new.free == old.free && new.used == old.used,
        Some(a) => {
            &&& is_first_fit(old.free, size, a.start)
            &&& a.end == a.start + size
            &&& new.free == carve(old.free, a.start, size)
            &&& new.used == old.used.insert(a.start, size)
        },
    }
}

/// What `free(a)` does to the state `old`, giving the state `new`.
pub open spec fn free_post(old: AllocatorModel, a: LinearBlockAllocation, new: AllocatorModel) -> bool {
    &&& new.total_size == old.total_size
    &&& new.used == old.used.remove(a.start)
    &&& new.free == release(old.free, a.start, a.end)
}

/// Allocation keeps the regions inside the buffer and apart from each other, and what it
/// hands out overlaps no allocation that was live before.
pub proof fn lemma_allocate_sound(
    old: AllocatorModel,
    size: u64,
    result: Option<LinearBlockAllocation>,
    new: AllocatorModel,
)
    requires
        old.sound(),
        allocate_post(old, size, result, new),
    ensures
        new.sound(),
        result matches Some(a) ==> old.is_fresh(a),
{
    if let Some(a) = result {
        let s = a.start;
        assert(old.free.contains_key(s));
        assert forall|k: u64| #[trigger] old.used.contains_key(k) implies disjoint(
            a.start,
            (a.end - a.start) as u64,
            k,
            old.used[k],
        ) by {
            assert(disjoint(s, old.free[s], k, old.used[k]));
        }
        assert forall|x: u64, y: u64|
            #[trigger] new.free.contains_key(x) && #[trigger] new.free.contains_key(y) && x != y
                implies disjoint(x, new.free[x], y, new.free[y]) by {
            if x != s && y != s && old.free.contains_key(x) && old.free.contains_key(y) {
                assert(disjoint(x, old.free[x], y, old.free[y]));
            }
            if old.free.contains_key(x) && x != s {
                assert(disjoint(x, old.free[x], s, old.free[s]));
            }
            if old.free.contains_key(y) && y != s {
                assert(disjoint(y, old.free[y], s, old.free[s]));
            }
        }
        assert forall|x: u64, y: u64|
            #[trigger] new.used.contains_key(x) && #[trigger] new.used.contains_key(y) && x != y
                implies disjoint(x, new.used[x], y, new.used[y]) by {
            if x != s && y != s {
                assert(disjoint(x, old.used[x], y, old.used[y]));
            }
            if x != s {
                assert(disjoint(s, old.free[s], x, old.used[x]));
            }
            if y != s {
                assert(disjoint(s, old.free[s], y, old.used[y]));
            }
        }
        assert forall|x: u64, y: u64|
            #[trigger] new.free.contains_key(x) && #[trigger] new.used.contains_key(y)
                implies disjoint(x, new.free[x], y, new.used[y]) by {
            if old.free.contains_key(x) && x != s && y != s {
                assert(disjoint(x, old.free[x], y, old.used[y]));
            }
            if old.free.contains_key(x) && x != s {
                assert(disjoint(x, old.free[x], s, old.free[s]));
            }
            if y != s {
                assert(disjoint(s, old.free[s], y, old.used[y]));
            }
        }
        assert forall|k: u64| #[trigger] new.used.contains_key(k) implies k + new.used[k]
            <= new.total_size by {
            if k != s {
                assert(old.used.contains_key(k));
            }
        }
        assert forall|k: u64| #[trigger] new.free.contains_key(k) implies k + new.free[k]
            <= new.total_size by {
            if k != s && old.free.contains_key(k) {
            }
        }
    }
}

/// In a sound state at most one free region ends at `start`, so when one does it is the
/// one `prev_key` names.
proof fn lemma_prev_unique(m: AllocatorModel, start: u64)
    requires
        m.sound(),
        has_prev(m.free, start),
    ensures
        is_prev(m.free, start, prev_key(m.free, start)),
{
    let w = choose|s: u64| #[trigger] ends_at(m.free, s, start);
    assert forall|s: u64| #[trigger] ends_at(m.free, s, start) implies s <= w by {
        if s != w {
            assert(disjoint(s, m.free[s], w, m.free[w]));
        }
    }
    assert(is_prev(m.free, start, w));
}

/// Freeing a live allocation keeps the regions inside the buffer and apart from each other.
pub proof fn lemma_free_sound(old: AllocatorModel, a: LinearBlockAllocation, new: AllocatorModel)
    requires
        old.sound(),
        old.is_live(a),
        free_post(old, a, new),
    ensures
        new.sound(),
{
    let start = a.start;
    let end = a.end;
    let free = old.free;
    assert(old.used.contains_key(start));
    let merged_prev = has_prev(free, start);
    if merged_prev {
        lemma_prev_unique(old, start);
    }
    let p = prev_key(free, start);
    let ns = if merged_prev { p } else { start };
    let f1 = if merged_prev { free.remove(ns) } else { free };
    let merged_next = f1.contains_key(end);
    let ne: u64 = if merged_next { (end + f1[end]) as u64 } else { end };
    assert(ns <= start <= end <= ne);
    assert(ne <= old.total_size);
    assert forall|x: u64| #[trigger]
        new.free.contains_key(x) && x != ns implies disjoint(x, new.free[x], ns, (ne - ns) as u64)
        && new.free[x] == free[x] && free.contains_key(x) && (merged_prev ==> x != p) && (
        merged_next ==> x != end) by {
        assert(free.contains_key(x));
        assert(disjoint(x, free[x], start, old.used[start]));
        if merged_prev {
            assert(disjoint(x, free[x], p, free[p]));
        }
        if merged_next {
            assert(disjoint(x, free[x], end, free[end]));
        }
    }
    assert forall|y: u64| #[trigger] new.used.contains_key(y) implies disjoint(
        ns,
        (ne - ns) as u64,
        y,
        new.used[y],
    ) by {
        assert(disjoint(start, old.used[start], y, old.used[y]));
        if merged_prev {
            assert(disjoint(p, free[p], y, old.used[y]));
        }
        if merged_next {
            assert(disjoint(end, free[end], y, old.used[y]));
        }
    }
    assert forall|x: u64, y: u64|
        #[trigger] new.free.contains_key(x) && #[trigger] new.free.contains_key(y) && x != y
            implies disjoint(x, new.free[x], y, new.free[y]) by {
        if x != ns && y != ns {
            assert(disjoint(x, free[x], y, free[y]));
        }
    }
    assert forall|x: u64, y: u64|
        #[trigger] new.free.contains_key(x) && #[trigger] new.used.contains_key(y)
            implies disjoint(x, new.free[x], y, new.used[y]) by {
        if x != ns {
            assert(disjoint(x, free[x], y, old.used[y]));
        }
    }
    assert forall|k: u64| #[trigger] new.free.contains_key(k) implies k + new.free[k]
        <= new.total_size by {
        if k != ns {
            assert(free.contains_key(k));
        }
    }
    assert forall|k: u64| #[trigger] new.used.contains_key(k) implies k + new.used[k]
        <= new.total_size by {
        assert(old.used.contains_key(k));
    }
}

/// Allocation keeps a compact state compact: free regions stay non-empty and no free region
/// comes to end where another starts.
pub proof fn lemma_allocate_compact(
    old: AllocatorModel,
    size: u64,
    result: Option<LinearBlockAllocation>,
    new: AllocatorModel,
)
    requires
        old.compact(),
        allocate_post(old, size, result, new),
    ensures
        new.compact(),
{
    lemma_allocate_sound(old, size, result, new);
    if let Some(a) = result {
        let s = a.start;
        assert(old.free.contains_key(s));
        assert forall|x: u64, y: u64|
            #[trigger] new.free.contains_key(x) && #[trigger] new.free.contains_key(y) implies x
                + new.free[x] != y by {
            if old.free.contains_key(x) && x != s {
                assert(disjoint(x, old.free[x], s, old.free[s]));
                assert(x + old.free[x] != s);
            }
            if old.free.contains_key(y) && y != s {
                assert(s + old.free[s] != y);
            }
        }
    }
}

/// Freeing a live, non-empty allocation keeps a compact state compact.
pub proof fn lemma_free_compact(old: AllocatorModel, a: LinearBlockAllocation, new: AllocatorModel)
    requires
        old.compact(),
        old.is_live(a),
        a.start < a.end,
        free_post(old, a, new),
    ensures
        new.compact(),
{
    lemma_free_sound(old, a, new);
    let start = a.start;
    let end = a.end;
    let free = old.free;
    let merged_prev = has_prev(free, start);
    if merged_prev {
        lemma_prev_unique(old, start);
    }
    let p = prev_key(free, start);
    let ns = if merged_prev { p } else { start };
    let f1 = if merged_prev { free.remove(ns) } else { free };
    let merged_next = f1.contains_key(end);
    let ne: u64 = if merged_next { (end + f1[end]) as u64 } else { end };
    assert(ns <= start < end <= ne);
    assert forall|x: u64, y: u64|
        #[trigger] new.free.contains_key(x) && #[trigger] new.free.contains_key(y) implies x
            + new.free[x] != y by {
        if x != ns {
            assert(free.contains_key(x));
            if !merged_prev && x + free[x] == start && x < start {
                assert(ends_at(free, x, start));
            }
        }
        if y != ns {
            assert(free.contains_key(y));
        }
    }
}

/// Allocating `size` positions from a compact state and freeing them right away gives
/// back the same free regions, and forgets the used region recorded at that start.
pub proof fn lemma_free_undoes_allocate(
    v0: AllocatorModel,
    size: u64,
    a: LinearBlockAllocation,
    v1: AllocatorModel,
    v2: AllocatorModel,
)
    requires
        v0.compact(),
        allocate_post(v0, size, Some(a), v1),
        free_post(v1, a, v2),
    ensures
        v2.free == v0.free,
        v2.used == v0.used.remove(a.start),
{
    let s = a.start;
    let r = v0.free[s];
    assert(v0.free.contains_key(s));
    assert(!has_prev(v1.free, s)) by {
        if has_prev(v1.free, s) {
            let q = choose|q: u64| #[trigger] ends_at(v1.free, q, s);
            assert(v0.free.contains_key(q));
            assert(q + v0.free[q] == s);
        }
    }
    if size == 0 {
        assert(v1.free =~= v0.free);
        assert(v2.free =~= v0.free);
    } else if r > size {
        assert(!v0.free.contains_key((s + size) as u64)) by {
            if v0.free.contains_key((s + size) as u64) {
                assert(disjoint(s, v0.free[s], (s + size) as u64, v0.free[(s + size) as u64]));
            }
        }
        assert(v2.free =~= v0.free);
    } else {
        assert(!v0.free.contains_key((s + r) as u64));
        assert(v2.free =~= v0.free);
    }
    assert(v2.used =~= v0.used.remove(a.start));
}

/// After a live allocation of `n` positions is freed, some free region is at least `n` long,
/// so an allocation of `n` positions succeeds.
pub proof fn lemma_free_makes_room(old: AllocatorModel, a: LinearBlockAllocation, new: AllocatorModel)
    requires
        old.sound(),
        old.is_live(a),
        free_post(old, a, new),
    ensures
        has_fit(new.free, (a.end - a.start) as u64),
{
    let start = a.start;
    if has_prev(old.free, start) {
        lemma_prev_unique(old, start);
    }
    let ns = if has_prev(old.free, start) { prev_key(old.free, start) } else { start };
    assert(new.free.contains_key(ns));
}

/// Freeing a live allocation adds exactly its range to the free positions and takes exactly
/// that range from the used ones.
pub proof fn lemma_free_adds_range(old: AllocatorModel, a: LinearBlockAllocation, new: AllocatorModel)
    requires
        old.sound(),
        old.is_live(a),
        free_post(old, a, new),
    ensures
        forall|x: int| #[trigger]
            in_region(new.free, x) <==> in_region(old.free, x) || a.start <= x < a.end,
        forall|x: int| #[trigger]
            in_region(new.used, x) <==> in_region(old.used, x) && !(a.start <= x < a.end),
{
    let start = a.start;
    let end = a.end;
    let free = old.free;
    assert(old.used.contains_key(start));
    let merged_prev = has_prev(free, start);
    if merged_prev {
        lemma_prev_unique(old, start);
    }
    let p = prev_key(free, start);
    let ns = if merged_prev { p } else { start };
    let f1 = if merged_prev { free.remove(ns) } else { free };
    let merged_next = f1.contains_key(end);
    let ne: u64 = if merged_next { (end + f1[end]) as u64 } else { end };
    assert(new.free.contains_key(ns) && new.free[ns] == ne - ns);
    assert forall|x: int| #[trigger]
        in_region(new.free, x) implies in_region(old.free, x) || start <= x < end by {
        let k = choose|k: u64| #[trigger] new.free.contains_key(k) && k <= x < k + new.free[k];
        if k == ns {
            if x < start {
                assert(free.contains_key(p) && p <= x < p + free[p]);
            } else if x >= end {
                assert(free.contains_key(end) && end <= x < end + free[end]);
            }
        } else {
            assert(free.contains_key(k) && new.free[k] == free[k]);
        }
    }
    assert forall|x: int| #[trigger]
        in_region(old.free, x) || start <= x < end implies in_region(new.free, x) by {
        if start <= x < end {
            assert(new.free.contains_key(ns) && ns <= x < ns + new.free[ns]);
        } else {
            let k = choose|k: u64| #[trigger] free.contains_key(k) && k <= x < k + free[k];
            if merged_prev && k == p {
                assert(new.free.contains_key(ns) && ns <= x < ns + new.free[ns]);
            } else if merged_next && k == end {
                assert(new.free.contains_key(ns) && ns <= x < ns + new.free[ns]);
            } else if k == ns {
                assert(disjoint(k, free[k], start, old.used[start]));
                assert(new.free.contains_key(ns) && ns <= x < ns + new.free[ns]);
            } else {
                assert(new.free.contains_key(k) && k <= x < k + new.free[k]);
            }
        }
    }
    assert forall|x: int| #[trigger]
        in_region(new.used, x) implies in_region(old.used, x) && !(start <= x < end) by {
        let k = choose|k: u64| #[trigger] new.used.contains_key(k) && k <= x < k + new.used[k];
        assert(old.used.contains_key(k) && k != start);
        assert(disjoint(k, old.used[k], start, old.used[start]));
    }
    assert forall|x: int| #[trigger]
        in_region(old.used, x) && !(start <= x < end) implies in_region(new.used, x) by {
        let k = choose|k: u64| #[trigger] old.used.contains_key(k) && k <= x < k + old.used[k];
        assert(new.used.contains_key(k) && k <= x < k + new.used[k]);
    }
}

/// Freeing a live allocation keeps every position of the buffer in some region.
pub proof fn lemma_free_tiled(old: AllocatorModel, a: LinearBlockAllocation, new: AllocatorModel)
    requires
        old.sound(),
        old.tiled(),
        old.is_live(a),
        free_post(old, a, new),
    ensures
        new.tiled(),
{
    lemma_free_adds_range(old, a, new);
    assert forall|x: int| 0 <= x < new.total_size implies #[trigger] in_region(new.free, x)
        || in_region(new.used, x) by {
        assert(in_region(old.free, x) || in_region(old.used, x));
    }
}

/// Allocation from a compact state keeps every position of the buffer in some region.
pub proof fn lemma_allocate_tiled(
    old: AllocatorModel,
    size: u64,
    result: Option<LinearBlockAllocation>,
    new: AllocatorModel,
)
    requires
        old.compact(),
        old.tiled(),
        allocate_post(old, size, result, new),
    ensures
        new.tiled(),
{
    if let Some(a) = result {
        let s = a.start;
        let r = old.free[s];
        assert(old.free.contains_key(s));
        assert forall|x: int| 0 <= x < new.total_size implies #[trigger] in_region(new.free, x)
            || in_region(new.used, x) by {
            if in_region(old.free, x) {
                let k = choose|k: u64| #[trigger] old.free.contains_key(k) && k <= x < k + old.free[k];
                if k == s {
                    if x < s + size {
                        assert(new.used.contains_key(s) && s <= x < s + new.used[s]);
                    } else {
                        assert(new.free.contains_key((s + size) as u64));
                        assert((s + size) as u64 <= x < (s + size) as u64 + new.free[(s + size) as u64]);
                    }
                } else {
                    if r > size && k == (s + size) as u64 {
                        assert(disjoint(k, old.free[k], s, old.free[s]));
                    }
                    assert(new.free.contains_key(k) && k <= x < k + new.free[k]);
                }
            } else {
                assert(in_region(old.used, x));
                let k = choose|k: u64| #[trigger] old.used.contains_key(k) && k <= x < k + old.used[k];
                if k == s {
                    assert(disjoint(s, old.free[s], k, old.used[k]));
                }
                assert(new.used.contains_key(k) && k <= x < k + new.used[k]);
            }
        }
    }
}

/// Adds the length of region `k` of `m` to a running total.
pub open spec fn length_adder(m: Map<u64, u64>) -> spec_fn(int, u64) -> int {
    |acc: int, k: u64| acc + m[k]
}

/// Sum of the lengths of the regions of `m`.
pub open spec fn total_length(m: Map<u64, u64>) -> int {
    m.dom().fold(0int, length_adder(m))
}

/// Summing lengths does not depend on the order of the regions.
proof fn lemma_length_adder_commutative(m: Map<u64, u64>)
    ensures
        vstd::set::fold::is_fun_commutative(length_adder(m)),
{
    assert forall|a1: u64, a2: u64, b: int| #[trigger]
        length_adder(m)(length_adder(m)(b, a2), a1) == length_adder(m)(length_adder(m)(b, a1), a2) by {}
}

/// Two maps that give the same lengths to the regions of `s` sum them alike.
proof fn lemma_length_sum_agrees(s: Set<u64>, m1: Map<u64, u64>, m2: Map<u64, u64>)
    requires
        s.finite(),
        forall|k: u64| #[trigger] s.contains(k) ==> m1[k] == m2[k],
    ensures
        s.fold(0int, length_adder(m1)) == s.fold(0int, length_adder(m2)),
    decreases s.len(),
{
    lemma_length_adder_commutative(m1);
    lemma_length_adder_commutative(m2);
    if s.len() == 0 {
        assert(s =~= Set::<u64>::empty());
        vstd::set::fold::lemma_fold_empty(0int, length_adder(m1));
        vstd::set::fold::lemma_fold_empty(0int, length_adder(m2));
    } else {
        let a = s.choose();
        let r = s.remove(a);
        lemma_length_sum_agrees(r, m1, m2);
        assert(r.insert(a) =~= s);
        vstd::set::fold::lemma_fold_insert(r, 0int, length_adder(m1), a);
        vstd::set::fold::lemma_fold_insert(r, 0int, length_adder(m2), a);
    }
}

/// Adding a region at a new start adds its length to the sum.
proof fn lemma_total_length_insert(m: Map<u64, u64>, k: u64, v: u64)
    requires
        m.dom().finite(),
        !m.contains_key(k),
    ensures
        total_length(m.insert(k, v)) == total_length(m) + v,
{
    let m2 = m.insert(k, v);
    lemma_length_adder_commutative(m2);
    assert(m2.dom() =~= m.dom().insert(k));
    vstd::set::fold::lemma_fold_insert(m.dom(), 0int, length_adder(m2), k);
    lemma_length_sum_agrees(m.dom(), m2, m);
}

/// Taking a region out takes its length from the sum.
proof fn lemma_total_length_remove(m: Map<u64, u64>, k: u64)
    requires
        m.dom().finite(),
        m.contains_key(k),
    ensures
        total_length(m) == total_length(m.remove(k)) + m[k],
{
    lemma_total_length_insert(m.remove(k), k, m[k]);
    assert(m.remove(k).insert(k, m[k]) =~= m);
}

/// No regions sum to nothing.
proof fn lemma_total_length_empty()
    ensures
        total_length(Map::<u64, u64>::empty()) == 0,
{
    assert(Map::<u64, u64>::empty().dom() =~= Set::<u64>::empty());
    vstd::set::fold::lemma_fold_empty(0int, length_adder(Map::<u64, u64>::empty()));
}

/// Writing a region's length replaces the length it had, if any, in the sum.
proof fn lemma_total_length_set(m: Map<u64, u64>, k: u64, v: u64)
    requires
        m.dom().finite(),
    ensures
        total_length(m.insert(k, v)) == total_length(m) - (if m.contains_key(k) { m[k] as int } else { 0 }) + v,
{
    if m.contains_key(k) {
        lemma_total_length_remove(m, k);
        lemma_total_length_insert(m.remove(k), k, v);
        assert(m.remove(k).insert(k, v) =~= m.insert(k, v));
    } else {
        lemma_total_length_insert(m, k, v);
    }
}

impl AllocatorModel {
    /// The region maps are finite and their lengths add up to the size of the buffer.
    pub open spec fn lengths_add_up(self) -> bool {
        &&& self.free.dom().finite()
        &&& self.used.dom().finite()
        &&& total_length(self.free) + total_length(self.used) == self.total_size
    }
}

/// Allocation from a compact state moves exactly the allocated length from the free regions to
/// the used ones, so the lengths still add up to the size of the buffer.
pub proof fn lemma_allocate_keeps_lengths(
    old: AllocatorModel,
    size: u64,
    result: Option<LinearBlockAllocation>,
    new: AllocatorModel,
)
    requires
        old.compact(),
        old.lengths_add_up(),
        allocate_post(old, size, result, new),
    ensures
        new.lengths_add_up(),
        match result {
            Some(a) => total_length(new.used) == total_length(old.used) + size,
            None => total_length(new.used) == total_length(old.used),
        },
{
    if let Some(a) = result {
        let s = a.start;
        let r = old.free[s];
        assert(old.free.contains_key(s));
        lemma_total_length_remove(old.free, s);
        if r > size {
            let k = (s + size) as u64;
            assert(!old.free.remove(s).contains_key(k)) by {
                if old.free.remove(s).contains_key(k) {
                    assert(old.free.contains_key(k) && k != s);
                    assert(disjoint(s, old.free[s], k, old.free[k]));
                }
            }
            lemma_total_length_insert(old.free.remove(s), k, (r - size) as u64);
        }
        assert(total_length(new.free) == total_length(old.free) - size);
        if old.used.contains_key(s) {
            assert(disjoint(s, old.free[s], s, old.used[s]));
        }
        lemma_total_length_set(old.used, s, size);
    }
}

/// Freeing a live allocation moves exactly its length from the used regions to the free ones,
/// so the lengths still add up to the size of the buffer.
pub proof fn lemma_free_keeps_lengths(old: AllocatorModel, a: LinearBlockAllocation, new: AllocatorModel)
    requires
        old.sound(),
        old.is_live(a),
        old.free.dom().finite(),
        old.used.dom().finite(),
        free_post(old, a, new),
    ensures
        old.lengths_add_up() ==> new.lengths_add_up(),
        new.free.dom().finite(),
        total_length(new.free) == total_length(old.free) + (a.end - a.start),
        total_length(new.used) == total_length(old.used) - (a.end - a.start),
{
    let start = a.start;
    let end = a.end;
    let free = old.free;
    lemma_total_length_remove(old.used, start);
    let merged_prev = has_prev(free, start);
    if merged_prev {
        lemma_prev_unique(old, start);
    }
    let p = prev_key(free, start);
    let ns = if merged_prev { p } else { start };
    let f1 = if merged_prev { free.remove(ns) } else { free };
    if merged_prev {
        lemma_total_length_remove(free, p);
    }
    let merged_next = f1.contains_key(end);
    let ne: u64 = if merged_next { (end + f1[end]) as u64 } else { end };
    let f2 = if merged_next { f1.remove(end) } else { f1 };
    if merged_next {
        lemma_total_length_remove(f1, end);
        assert(free.contains_key(end));
    }
    assert(f2.contains_key(ns) ==> f2[ns] == 0) by {
        if f2.contains_key(ns) {
            assert(!merged_prev);
            assert(free.contains_key(start));
            assert(start != end);
            assert(disjoint(start, free[start], start, old.used[start]));
        }
    }
    lemma_total_length_set(f2, ns, (ne - ns) as u64);
    assert(new.free == f2.insert(ns, (ne - ns) as u64));
}

/// The state of an allocator just made with `total_size` positions.
pub open spec fn new_model(total_size: u64) -> AllocatorModel {
    AllocatorModel { total_size, free: map![0u64 => total_size], used: Map::<u64, u64>::empty() }
}

/// The lowest start of a free region at least `size` long (meaningful when there is one).
pub open spec fn first_fit_start(free: Map<u64, u64>, size: u64) -> u64 {
    choose|s: u64| is_first_fit(free, size, s)
}

/// What `allocate(size)` gives from the state `m`, and the state after it.
pub open spec fn allocate_model(m: AllocatorModel, size: u64) -> (Option<LinearBlockAllocation>, AllocatorModel) {
    if has_fit(m.free, size) {
        let s = first_fit_start(m.free, size);
        (
            Some(LinearBlockAllocation { start: s, end: (s + size) as u64 }),
            AllocatorModel { total_size: m.total_size, free: carve(m.free, s, size), used: m.used.insert(s, size) },
        )
    } else {
        (None, m)
    }
}

/// The state after `free(a)` from the state `m`.
pub open spec fn free_model(m: AllocatorModel, a: LinearBlockAllocation) -> AllocatorModel {
    AllocatorModel {
        total_size: m.total_size,
        free: release(m.free, a.start, a.end),
        used: m.used.remove(a.start),
    }
}

/// A call made on an allocator.
pub enum AllocatorCall {
    Allocate(u64),
    Free(LinearBlockAllocation),
}

/// The state after `call` from the state `m`.
pub open spec fn call_model(m: AllocatorModel, call: AllocatorCall) -> AllocatorModel {
    match call {
        AllocatorCall::Allocate(size) => allocate_model(m, size).1,
        AllocatorCall::Free(a) => free_model(m, a),
    }
}

/// The state after `calls`, in order, from the state `m`.
pub open spec fn run_calls(m: AllocatorModel, calls: Seq<AllocatorCall>) -> AllocatorModel
    decreases calls.len(),
{
    if calls.len() == 0 {
        m
    } else {
        run_calls(call_model(m, calls[0]), calls.drop_first())
    }
}

/// Every call of `calls`, made in order from `m`, allocates a non-empty range or frees a
/// non-empty allocation that is live when it is freed.
pub open spec fn calls_allowed(m: AllocatorModel, calls: Seq<AllocatorCall>) -> bool
    decreases calls.len(),
{
    calls.len() == 0 || ({
        &&& match calls[0] {
            AllocatorCall::Allocate(size) => size > 0,
            AllocatorCall::Free(a) => m.is_live(a) && a.start < a.end,
        }
        &&& calls_allowed(call_model(m, calls[0]), calls.drop_first())
    })
}

impl AllocatorModel {
    /// What every state reached by such calls keeps: the regions are compact, cover the buffer
    /// and add up to its size, and every used region is non-empty.
    pub open spec fn reachable_inv(self) -> bool {
        &&& self.compact()
        &&& self.tiled()
        &&& self.lengths_add_up()
        &&& forall|k: u64| #[trigger] self.used.contains_key(k) ==> self.used[k] > 0
    }
}

/// A free region at least `size` long means there is a lowest such start.
proof fn lemma_first_fit_exists(free: Map<u64, u64>, size: u64)
    requires
        free.dom().finite(),
        has_fit(free, size),
    ensures
        is_first_fit(free, size, first_fit_start(free, size)),
{
    let fits = free.dom().filter(|k: u64| free[k] >= size);
    let leq = |a: u64, b: u64| a <= b;
    let k0 = choose|k: u64| #[trigger] free.contains_key(k) && free[k] >= size;
    assert(fits.contains(k0));
    free.dom().lemma_len_filter(|k: u64| free[k] >= size);
    assert(fits.finite());
    assert(fits.len() > 0);
    assert(vstd::relations::total_ordering(leq));
    fits.find_unique_minimal_ensures(leq);
    let m = fits.find_unique_minimal(leq);
    fits.lemma_minimal_equivalent_least(leq, m);
    assert forall|k: u64| #[trigger] free.contains_key(k) && free[k] >= size implies m <= k by {
        assert(fits.contains(k));
        assert(leq(m, k));
    }
    assert(is_first_fit(free, size, m));
}

/// Two lowest fitting starts are the same start.
proof fn lemma_first_fit_unique(free: Map<u64, u64>, size: u64, s1: u64, s2: u64)
    requires
        is_first_fit(free, size, s1),
        is_first_fit(free, size, s2),
    ensures
        s1 == s2,
{
}

/// A just-made allocator with room in it is in a reachable state.
pub proof fn lemma_new_reachable(total_size: u64)
    requires
        total_size > 0,
    ensures
        new_model(total_size).reachable_inv(),
{
    let m = new_model(total_size);
    assert(m.free.dom() =~= set![0u64]);
    assert(m.used.dom() =~= Set::<u64>::empty());
    assert forall|x: int| 0 <= x < m.total_size implies #[trigger] in_region(m.free, x) || in_region(m.used, x) by {
        assert(m.free.contains_key(0) && 0 <= x < 0 + m.free[0]);
    }
    lemma_total_length_empty();
    lemma_total_length_insert(Map::<u64, u64>::empty(), 0, total_size);
    assert(Map::<u64, u64>::empty().insert(0, total_size) =~= m.free);
}

/// From a reachable state, a non-empty allocation succeeds exactly when some free region is
/// long enough, hands out a range inside the buffer that overlaps no live allocation and no
/// region left free, and leads to a reachable state.
pub proof fn lemma_allocate_reachable(m: AllocatorModel, size: u64)
    requires
        m.reachable_inv(),
        size > 0,
    ensures
        allocate_model(m, size).1.reachable_inv(),
        (allocate_model(m, size).0 is Some) <==> has_fit(m.free, size),
        allocate_model(m, size).0 matches Some(a) ==> {
            &&& a.end == a.start + size
            &&& a.end <= m.total_size
            &&& m.is_fresh(a)
            &&& forall|k: u64| #[trigger] allocate_model(m, size).1.free.contains_key(k)
                ==> disjoint(a.start, size, k, allocate_model(m, size).1.free[k])
        },
{
    let (r, n) = allocate_model(m, size);
    if has_fit(m.free, size) {
        lemma_first_fit_exists(m.free, size);
    }
    assert(allocate_post(m, size, r, n));
    lemma_allocate_sound(m, size, r, n);
    lemma_allocate_compact(m, size, r, n);
    lemma_allocate_tiled(m, size, r, n);
    lemma_allocate_keeps_lengths(m, size, r, n);
    if let Some(a) = r {
        assert(n.used.contains_key(a.start) && n.used[a.start] == size);
        assert forall|k: u64| #[trigger] n.free.contains_key(k) implies disjoint(a.start, size, k, n.free[k]) by {
            assert(disjoint(k, n.free[k], a.start, n.used[a.start]));
        }
    }
}

/// From a reachable state, freeing a live non-empty allocation leads to a reachable state.
pub proof fn lemma_free_reachable(m: AllocatorModel, a: LinearBlockAllocation)
    requires
        m.reachable_inv(),
        m.is_live(a),
        a.start < a.end,
    ensures
        free_model(m, a).reachable_inv(),
{
    let n = free_model(m, a);
    lemma_free_sound(m, a, n);
    lemma_free_compact(m, a, n);
    lemma_free_tiled(m, a, n);
    lemma_free_keeps_lengths(m, a, n);
}

/// Every state that allowed calls lead to from a reachable state is reachable.
pub proof fn lemma_calls_reachable(m: AllocatorModel, calls: Seq<AllocatorCall>)
    requires
        m.reachable_inv(),
        calls_allowed(m, calls),
    ensures
        run_calls(m, calls).reachable_inv(),
    decreases calls.len(),
{
    if calls.len() > 0 {
        match calls[0] {
            AllocatorCall::Allocate(size) => lemma_allocate_reachable(m, size),
            AllocatorCall::Free(a) => lemma_free_reachable(m, a),
        }
        lemma_calls_reachable(call_model(m, calls[0]), calls.drop_first());
    }
}

/// An allocator made with `n > 0` positions, after any allowed calls: its regions are compact,
/// cover `[0, n)` and their lengths add up to `n`; a further non-empty allocation hands out a
/// range inside `[0, n)` that overlaps no live allocation and no free region.
pub proof fn lemma_allocator_after_calls(n: u64, calls: Seq<AllocatorCall>, size: u64)
    requires
        n > 0,
        calls_allowed(new_model(n), calls),
        size > 0,
    ensures
        run_calls(new_model(n), calls).reachable_inv(),
        run_calls(new_model(n), calls).total_size == n,
        allocate_model(run_calls(new_model(n), calls), size).0 matches Some(a) ==> {
            &&& a.end <= n
            &&& run_calls(new_model(n), calls).is_fresh(a)
            &&& forall|k: u64| #[trigger] allocate_model(run_calls(new_model(n), calls), size).1.free.contains_key(k)
                ==> disjoint(a.start, size, k, allocate_model(run_calls(new_model(n), calls), size).1.free[k])
        },
{
    lemma_new_reachable(n);
    lemma_calls_reachable(new_model(n), calls);
    lemma_calls_keep_size(new_model(n), calls);
    lemma_allocate_reachable(run_calls(new_model(n), calls), size);
}

/// Calls never change the size of the buffer.
proof fn lemma_calls_keep_size(m: AllocatorModel, calls: Seq<AllocatorCall>)
    ensures
        run_calls(m, calls).total_size == m.total_size,
    decreases calls.len(),
{
    if calls.len() > 0 {
        lemma_calls_keep_size(call_model(m, calls[0]), calls.drop_first());
    }
}

/// In a reachable state, freeing what a non-empty allocation just handed out gives back
/// exactly the state before it.
pub proof fn lemma_free_undoes_allocate_reachable(m: AllocatorModel, size: u64)
    requires
        m.reachable_inv(),
        size > 0,
        allocate_model(m, size).0 is Some,
    ensures
        free_model(allocate_model(m, size).1, allocate_model(m, size).0->0) == m,
{
    let (r, v1) = allocate_model(m, size);
    let a = r->0;
    lemma_first_fit_exists(m.free, size);
    assert(allocate_post(m, size, r, v1));
    let v2 = free_model(v1, a);
    lemma_free_undoes_allocate(m, size, a, v1, v2);
    assert(!m.used.contains_key(a.start)) by {
        if m.used.contains_key(a.start) {
            assert(disjoint(a.start, m.free[a.start], a.start, m.used[a.start]));
        }
    }
    assert(v2.used =~= m.used);
    assert(v2.free =~= m.free);
}

/// The free regions of `free` are non-empty, no two overlap, and none ends where another starts.
pub open spec fn free_compact(free: Map<u64, u64>) -> bool {
    &&& forall|k: u64| #[trigger] free.contains_key(k) ==> free[k] > 0 && k + free[k] <= u64::MAX
    &&& forall|a: u64, b: u64|
        #[trigger] free.contains_key(a) && #[trigger] free.contains_key(b) && a != b ==> disjoint(
            a,
            free[a],
            b,
            free[b],
        )
    &&& forall|a: u64, b: u64|
        #[trigger] free.contains_key(a) && #[trigger] free.contains_key(b) ==> a + free[a] != b
}

/// Returning a non-empty range that overlaps no free region to compact free regions: they then
/// cover exactly what they covered and the range, stay compact, and their lengths grow by
/// exactly the range's length.
pub proof fn lemma_release_range(free: Map<u64, u64>, start: u64, size: u64)
    requires
        free.dom().finite(),
        free_compact(free),
        size > 0,
        start + size <= u64::MAX,
        forall|k: u64| #[trigger] free.contains_key(k) ==> disjoint(k, free[k], start, size),
    ensures
        ({
            let new = release(free, start, (start + size) as u64);
            &&& forall|x: int| #[trigger] in_region(new, x) <==> in_region(free, x) || start <= x < start + size
            &&& free_compact(new)
            &&& new.dom().finite()
            &&& total_length(new) == total_length(free) + size
        }),
{
    let a = LinearBlockAllocation { start, end: (start + size) as u64 };
    let old = AllocatorModel { total_size: u64::MAX, free, used: map![start => size] };
    let new = AllocatorModel {
        total_size: u64::MAX,
        free: release(free, start, (start + size) as u64),
        used: map![start => size].remove(start),
    };
    assert(old.used.dom() =~= set![start]);
    assert(old.compact());
    assert(old.is_live(a));
    lemma_free_sound(old, a, new);
    lemma_free_adds_range(old, a, new);
    lemma_free_compact(old, a, new);
    lemma_free_keeps_lengths(old, a, new);
}

/// In a compact state whose used regions are all non-empty, no used region starts where a free
/// region does.
pub proof fn lemma_free_start_not_used(m: AllocatorModel, s: u64)
    requires
        m.compact(),
        forall|k: u64| #[trigger] m.used.contains_key(k) ==> m.used[k] > 0,
        m.free.contains_key(s),
    ensures
        !m.used.contains_key(s),
{
    if m.used.contains_key(s) {
        assert(disjoint(s, m.free[s], s, m.used[s]));
    }
}

impl View for LinearBlockAllocator {
    type V = AllocatorModel;

    closed spec fn view(&self) -> AllocatorModel {
        AllocatorModel { total_size: self.total_size, free: self.free_regions@, used: self.used_regions@ }
    }
}

/// The free region with the lowest start whose length is at least `size`, with its length.
fn first_fit(map: &BTreeMap<u64, u64>, size: u64) -> (r: Option<(u64, u64)>)
    ensures
        match r {
            Some((k, v)) => is_first_fit(map@, size, k) && v == map@[k],
            None => !has_fit(map@, size),
        },
{
    assert(vstd::laws_cmp::obeys_cmp::<u64>()) by {
        broadcast use vstd::laws_cmp::group_laws_cmp;
    }
    let iter = map.iter();
    let ghost s = iter.remaining();
    for (k, v) in it: iter
        invariant
            it.seq() == s,
            increasing_seq(s.map_values(|kv: (&u64, &u64)| *kv.0)),
            s.unref().to_set() == map@.kv_pairs(),
            vstd::laws_cmp::obeys_cmp::<u64>(),
            forall|j: int| 0 <= j < it.index() ==> *(#[trigger] s[j]).1 < size,
    {
        if *v >= size {
            proof {
                let i = it.index();
                let u = s.unref();
                assert(u[i] == (*k, *v));
                assert(u.contains((*k, *v)));
                assert(u.to_set().contains((*k, *v)));
                assert(map@.kv_pairs().contains((*k, *v)));
                assert forall|k2: u64| #[trigger]
                    map@.contains_key(k2) && map@[k2] >= size implies *k <= k2 by {
                    assert(map@.kv_pairs().contains((k2, map@[k2])));
                    assert(u.to_set().contains((k2, map@[k2])));
                    assert(u.contains((k2, map@[k2])));
                    let j = choose|j: int| 0 <= j < u.len() && u[j] == (k2, map@[k2]);
                    assert(u[j] == (*s[j].0, *s[j].1));
                    if j < i {
                        assert(*s[j].1 < size);
                    } else if j > i {
                        let ks = s.map_values(|kv: (&u64, &u64)| *kv.0);
                        assert(ks[i] == *k);
                        assert(ks[j] == k2);
                        assert(vstd::std_specs::cmp::OrdSpec::cmp_spec(&ks[i], &ks[j]) is Less);
                    }
                }
            }
            return Some((*k, *v));
        }
    }
    proof {
        assert forall|k2: u64| #[trigger] map@.contains_key(k2) implies map@[k2] < size by {
            let u = s.unref();
            assert(map@.kv_pairs().contains((k2, map@[k2])));
            assert(u.to_set().contains((k2, map@[k2])));
            assert(u.contains((k2, map@[k2])));
            let j = choose|j: int| 0 <= j < u.len() && u[j] == (k2, map@[k2]);
            assert(u[j] == (*s[j].0, *s[j].1));
        }
    }
    None
}

/// The greatest start among the regions of `map` that end exactly at `start`, if any.
fn find_prev(map: &BTreeMap<u64, u64>, start: u64) -> (r: Option<u64>)
    requires
        forall|k: u64| #[trigger] map@.contains_key(k) ==> k + map@[k] <= u64::MAX,
    ensures
        match r {
            Some(p) => is_prev(map@, start, p),
            None => !has_prev(map@, start),
        },
{
    assert(vstd::laws_cmp::obeys_cmp::<u64>()) by {
        broadcast use vstd::laws_cmp::group_laws_cmp;
    }
    let iter = map.iter();
    let ghost s = iter.remaining();
    let mut found: Option<u64> = None;
    for (k, v) in it: iter
        invariant
            it.seq() == s,
            increasing_seq(s.map_values(|kv: (&u64, &u64)| *kv.0)),
            s.unref().to_set() == map@.kv_pairs(),
            vstd::laws_cmp::obeys_cmp::<u64>(),
            forall|k: u64| #[trigger] map@.contains_key(k) ==> k + map@[k] <= u64::MAX,
            match found {
                Some(p) => ends_at(map@, p, start) && forall|j: int|
                    0 <= j < it.index() && ends_at(map@, *(#[trigger] s[j]).0, start) ==> *s[j].0 <= p,
                None => forall|j: int|
                    0 <= j < it.index() ==> !ends_at(map@, *(#[trigger] s[j]).0, start),
            },
    {
        proof {
            let i = it.index();
            let u = s.unref();
            assert(u[i] == (*k, *v));
            assert(u.contains((*k, *v)));
            assert(u.to_set().contains((*k, *v)));
            assert(map@.kv_pairs().contains((*k, *v)));
        }
        if *k < start && *k + *v == start {
            proof {
                let i = it.index();
                assert forall|j: int|
                    0 <= j <= i && ends_at(map@, *(#[trigger] s[j]).0, start) implies *s[j].0 <= *k by {
                    if j < i {
                        let ks = s.map_values(|kv: (&u64, &u64)| *kv.0);
                        assert(ks[i] == *k);
                        assert(ks[j] == *s[j].0);
                        assert(vstd::std_specs::cmp::OrdSpec::cmp_spec(&ks[j], &ks[i]) is Less);
                    }
                }
            }
            found = Some(*k);
        }
    }
    proof {
        let u = s.unref();
        assert forall|k2: u64| #[trigger] ends_at(map@, k2, start) implies (match found {
            Some(p) => k2 <= p,
            None => false,
        }) by {
            assert(map@.kv_pairs().contains((k2, map@[k2])));
            assert(u.to_set().contains((k2, map@[k2])));
            assert(u.contains((k2, map@[k2])));
            let j = choose|j: int| 0 <= j < u.len() && u[j] == (k2, map@[k2]);
            assert(u[j] == (*s[j].0, *s[j].1));
        }
    }
    found
}

impl LinearBlockAllocator {
    /// The invariant every allocator keeps: no free region reaches past `u64::MAX`.
    pub open spec fn wf(&self) -> bool {
        self@.no_overflow()
    }

    /// An allocator whose whole range `[0, total_size)` is one free region.
    pub fn new(total_size: u64) -> (r: Self)
        ensures
            r.wf(),
            r@.total_size == total_size,
            r@.free == map![0u64 => total_size],
            r@.used == Map::<u64, u64>::empty(),
            r@.sound(),
            r@.tiled(),
            r@.lengths_add_up(),
            r@ == new_model(total_size),
            total_size > 0 ==> r@.compact(),
    {
        let mut free_regions = BTreeMap::new();
        free_regions.insert(0, total_size);
        let r = Self { total_size, free_regions, used_regions: BTreeMap::new() };
        assert(r@.free =~= map![0u64 => total_size]);
        assert forall|x: int| 0 <= x < r@.total_size implies #[trigger] in_region(r@.free, x)
            || in_region(r@.used, x) by {
            assert(r@.free.contains_key(0) && 0 <= x < 0 + r@.free[0]);
        }
        proof {
            assert(r@.used =~= Map::<u64, u64>::empty());
            assert(Map::<u64, u64>::empty().insert(0, total_size) =~= r@.free);
            lemma_total_length_empty();
            lemma_total_length_insert(Map::<u64, u64>::empty(), 0, total_size);
        }
        r
    }

    /// Takes `size` positions from the start of the free region with the lowest start that is
    /// at least `size` long; `None` when no free region is that long.
    pub fn allocate(&mut self, size: u64) -> (result: Option<LinearBlockAllocation>)
        requires
            old(self).wf(),
        ensures
            final(self).wf(),
            allocate_post(old(self)@, size, result, final(self)@),
            (result, final(self)@) == allocate_model(old(self)@, size),
            result is Some <==> has_fit(old(self)@.free, size),
            old(self)@.sound() ==> final(self)@.sound(),
            old(self)@.compact() ==> final(self)@.compact(),
            old(self)@.compact() && old(self)@.tiled() ==> final(self)@.tiled(),
            old(self)@.compact() && old(self)@.lengths_add_up() ==> final(self)@.lengths_add_up(),
            old(self)@.sound() ==> (result matches Some(a) ==> old(self)@.is_fresh(a)),
    {
        match first_fit(&self.free_regions, size) {
            None => None,
            Some((start, region_size)) => {
                assert(self@.free.contains_key(start));
                let end = start + size;
                self.free_regions.remove(&start);
                if region_size > size {
                    self.free_regions.insert(end, region_size - size);
                }
                self.used_regions.insert(start, size);
                let result = Some(LinearBlockAllocation { start, end });
                proof {
                    assert(self@.free =~= carve(old(self)@.free, start, size));
                    if old(self)@.sound() {
                        lemma_allocate_sound(old(self)@, size, result, self@);
                    }
                    if old(self)@.compact() {
                        lemma_allocate_compact(old(self)@, size, result, self@);
                    }
                    if old(self)@.compact() && old(self)@.tiled() {
                        lemma_allocate_tiled(old(self)@, size, result, self@);
                    }
                    if old(self)@.compact() && old(self)@.lengths_add_up() {
                        lemma_allocate_keeps_lengths(old(self)@, size, result, self@);
                    }
                    lemma_first_fit_exists(old(self)@.free, size);
                    lemma_first_fit_unique(
                        old(self)@.free,
                        size,
                        start,
                        first_fit_start(old(self)@.free, size),
                    );
                    assert(self@.used =~= old(self)@.used.insert(start, size));
                }
                result
            },
        }
    }

    /// Whether `allocate(size)` would succeed now: some free region is at least `size` long.
    pub fn has_room(&self, size: u64) -> (b: bool)
        ensures
            b == has_fit(self@.free, size),
    {
        first_fit(&self.free_regions, size).is_some()
    }

    /// Whether a region starting at `start` is recorded as allocated, which `free` needs.
    pub fn is_allocated(&self, start: u64) -> (b: bool)
        ensures
            b == self@.used.contains_key(start),
    {
        self.used_regions.contains_key(&start)
    }

    /// Returns a live allocation to the free regions, merged with its free neighbours.
    pub fn free(&mut self, allocation: LinearBlockAllocation)
        requires
            old(self).wf(),
            allocation.start <= allocation.end,
            old(self)@.used.contains_key(allocation.start),
        ensures
            final(self).wf(),
            free_post(old(self)@, allocation, final(self)@),
            final(self)@ == free_model(old(self)@, allocation),
            old(self)@.sound() && old(self)@.is_live(allocation) ==> final(self)@.sound(),
            old(self)@.sound() && old(self)@.is_live(allocation) ==> forall|x: int| #[trigger]
                in_region(final(self)@.free, x) <==> in_region(old(self)@.free, x) || allocation.start
                    <= x < allocation.end,
            old(self)@.sound() && old(self)@.is_live(allocation) ==> forall|x: int| #[trigger]
                in_region(final(self)@.used, x) <==> in_region(old(self)@.used, x) && !(
                allocation.start <= x < allocation.end),
            old(self)@.sound() && old(self)@.tiled() && old(self)@.is_live(allocation)
                ==> final(self)@.tiled(),
            old(self)@.sound() && old(self)@.lengths_add_up() && old(self)@.is_live(allocation)
                ==> final(self)@.lengths_add_up(),
            old(self)@.compact() && old(self)@.is_live(allocation) && allocation.start
                < allocation.end ==> final(self)@.compact(),
    {
        let start = allocation.start;
        let size = allocation.end - allocation.start;
        let removed = self.used_regions.remove(&start);
        if removed.is_some() {
            assert(self@.free == old(self)@.free);
            self.insert_free_region(start, size);
        }
        proof {
            if old(self)@.sound() && old(self)@.is_live(allocation) {
                lemma_free_sound(old(self)@, allocation, self@);
                lemma_free_adds_range(old(self)@, allocation, self@);
            }
            if old(self)@.sound() && old(self)@.tiled() && old(self)@.is_live(allocation) {
                lemma_free_tiled(old(self)@, allocation, self@);
            }
            if old(self)@.sound() && old(self)@.lengths_add_up() && old(self)@.is_live(allocation) {
                lemma_free_keeps_lengths(old(self)@, allocation, self@);
            }
            if old(self)@.compact() && old(self)@.is_live(allocation) && allocation.start
                < allocation.end {
                lemma_free_compact(old(self)@, allocation, self@);
            }
        }
    }

    /// Adds `[start, start + size)` to the free regions, merged with the free region that ends
    /// at `start` and the one that starts at `start + size`.
    fn insert_free_region(&mut self, start: u64, size: u64)
        requires
            old(self).wf(),
            start + size <= u64::MAX,
        ensures
            final(self).wf(),
            final(self)@.total_size == old(self)@.total_size,
            final(self)@.used == old(self)@.used,
            final(self)@.free == release(old(self)@.free, start, (start + size) as u64),
            free_compact(old(self)@.free) && size > 0 && (forall|k: u64| #[trigger]
                old(self)@.free.contains_key(k) ==> disjoint(k, old(self)@.free[k], start, size))
                ==> {
                &&& forall|x: int| #[trigger] in_region(final(self)@.free, x) <==> in_region(
                    old(self)@.free,
                    x,
                ) || start <= x < start + size
                &&& free_compact(final(self)@.free)
                &&& total_length(final(self)@.free) == total_length(old(self)@.free) + size
            },
    {
        let mut new_start = start;
        let mut new_end = start + size;
        let ghost f0 = self@.free;
        let prev = find_prev(&self.free_regions, start);
        if let Some(prev_start) = prev {
            self.free_regions.remove(&prev_start);
            new_start = prev_start;
        }
        proof {
            if has_prev(f0, start) {
                let p = prev->0;
                assert(is_prev(f0, start, p));
                assert(prev_key(f0, start) == p) by {
                    let q = prev_key(f0, start);
                    assert(is_prev(f0, start, q));
                }
            }
        }
        let ghost f1 = self@.free;
        let next = self.free_regions.get(&new_end);
        if let Some(next_size) = next {
            let next_size = *next_size;
            self.free_regions.remove(&new_end);
            new_end = new_end + next_size;
        }
        self.free_regions.insert(new_start, new_end - new_start);
        proof {
            assert(self@.free =~= release(f0, start, (start + size) as u64));
            if free_compact(f0) && size > 0 && (forall|k: u64| #[trigger]
                f0.contains_key(k) ==> disjoint(k, f0[k], start, size)) {
                lemma_release_range(f0, start, size);
            }
        }
    }
}

} // verus!
