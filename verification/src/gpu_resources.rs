//! The GPU resource list's bookkeeping: dropping the meshes no one uses any more, filling the
//! acceleration structures' instance slots, and when the static instances are rebuilt.
use vstd::prelude::*;

verus! {

/// `s` without the elements at the positions in `idx`, the others kept in order.
pub open spec fn remove_positions<T>(s: Seq<T>, idx: Set<int>) -> Seq<T>
    decreases s.len(),
{
    if s.len() == 0 {
        s
    } else {
        let rest = remove_positions(s.drop_last(), idx);
        if idx.contains(s.len() - 1) {
            rest
        } else {
            rest.push(s.last())
        }
    }
}

/// Removing no position keeps the sequence.
proof fn lemma_remove_none<T>(s: Seq<T>)
    ensures
        remove_positions(s, Set::empty()) == s,
    decreases s.len(),
{
    if s.len() > 0 {
        lemma_remove_none(s.drop_last());
        assert(s.drop_last().push(s.last()) =~= s);
    }
}

/// Positions at or past the end do not matter.
proof fn lemma_remove_past_end<T>(s: Seq<T>, idx: Set<int>, k: int)
    requires
        k >= s.len(),
    ensures
        remove_positions(s, idx.insert(k)) == remove_positions(s, idx),
    decreases s.len(),
{
    if s.len() > 0 {
        lemma_remove_past_end(s.drop_last(), idx, k);
    }
}

/// Removing one more position `k` removes, from what was left, the element just after the
/// kept elements before `k`.
proof fn lemma_remove_one_more<T>(s: Seq<T>, idx: Set<int>, k: int)
    requires
        0 <= k < s.len(),
        !idx.contains(k),
    ensures
        remove_positions(s.take(k), idx).len() < remove_positions(s, idx).len(),
        remove_positions(s, idx.insert(k)) == remove_positions(s, idx).remove(
            remove_positions(s.take(k), idx).len() as int,
        ),
    decreases s.len(),
{
    let n = s.len() - 1;
    let dl = s.drop_last();
    if n == k {
        assert(s.take(k) =~= dl);
        lemma_remove_past_end(dl, idx, k);
        let r = remove_positions(dl, idx);
        assert(r.push(s.last()).remove(r.len() as int) =~= r);
    } else {
        lemma_remove_one_more(dl, idx, k);
        assert(dl.take(k) =~= s.take(k));
        let r = remove_positions(dl, idx);
        let p = remove_positions(s.take(k), idx).len() as int;
        if !idx.contains(n) {
            assert(r.push(s.last()).remove(p) =~= r.remove(p).push(s.last()));
        }
    }
}

/// The positions in `s`, as integers.
pub open spec fn as_positions(s: Seq<usize>) -> Seq<int> {
    s.map_values(|i: usize| i as int)
}

/// The positions in `s`, as a set of integers.
pub open spec fn position_set(s: Seq<usize>) -> Set<int> {
    as_positions(s).to_set()
}

/// Calls `<[usize]>::sort`, which orders the slice ascending and keeps its elements.
#[verifier::external_body]
fn sort_indices(indices: &mut [usize])
    ensures
        final(indices)@.to_multiset() == old(indices)@.to_multiset(),
        forall|a: int, b: int|
            0 <= a < b < final(indices)@.len() ==> final(indices)@[a] <= final(indices)@[b],
{
    indices.sort();
}

/// Removes from `vec` the elements at the positions listed in `indices`, keeping the order of
/// the others; `indices` ends up sorted.
pub fn vec_remove_multiple<T>(vec: &mut Vec<T>, indices: &mut [usize])
    requires
        old(indices)@.no_duplicates(),
        forall|a: int| 0 <= a < old(indices)@.len() ==> #[trigger] old(indices)@[a] < old(vec)@.len(),
    ensures
        final(vec)@ == remove_positions(old(vec)@, position_set(old(indices)@)),
        final(indices)@.to_multiset() == old(indices)@.to_multiset(),
        forall|a: int, b: int|
            0 <= a < b < final(indices)@.len() ==> final(indices)@[a] < final(indices)@[b],
{
    broadcast use vstd::seq_lib::group_to_multiset_ensures;

    let ghost orig = vec@;
    let ghost before = indices@;
    sort_indices(indices);
    let ghost s = indices@;
    proof {
        before.lemma_multiset_has_no_duplicates();
        assert forall|x: usize| s.to_multiset().contains(x) implies s.to_multiset().count(x)
            == 1 by {}
        s.lemma_multiset_has_no_duplicates_conv();
        assert forall|a: int| 0 <= a < s.len() implies #[trigger] s[a] < orig.len() by {
            assert(s.contains(s[a]));
            assert(s.to_multiset().count(s[a]) > 0);
            assert(before.contains(s[a]));
        }
        assert forall|a: int, b: int| 0 <= a < b < s.len() implies s[a] < s[b] by {
            assert(s[a] != s[b]);
        }
        assert(position_set(s) =~= position_set(before)) by {
            assert forall|x: int| position_set(s).contains(x) implies position_set(before).contains(x) by {
                let a = choose|a: int| 0 <= a < s.len() && #[trigger] as_positions(s)[a] == x;
                assert(s.contains(s[a]));
                assert(s.to_multiset().count(s[a]) > 0);
                assert(before.contains(s[a]));
                let b = choose|b: int| 0 <= b < before.len() && #[trigger] before[b] == s[a];
                assert(as_positions(before)[b] == x);
            }
            assert forall|x: int| position_set(before).contains(x) implies position_set(s).contains(x) by {
                let b = choose|b: int| 0 <= b < before.len() && #[trigger] as_positions(before)[b] == x;
                assert(before.contains(before[b]));
                assert(before.to_multiset().count(before[b]) > 0);
                assert(s.contains(before[b]));
                let a = choose|a: int| 0 <= a < s.len() && #[trigger] s[a] == before[b];
                assert(as_positions(s)[a] == x);
            }
        }
        lemma_remove_none(orig);
        assert(position_set(s.take(0)) =~= Set::<int>::empty());
        assert forall|k: int| 0 <= k <= orig.len() implies #[trigger] remove_positions(
            orig.take(k),
            position_set(s.take(0)),
        ).len() == k by {
            lemma_remove_none(orig.take(k));
        }
        assert(orig.take(orig.len() as int) =~= orig);
    }
    let mut j: usize = 0;
    while j < indices.len()
        invariant
            indices@ == s,
            0 <= j <= s.len(),
            forall|a: int| 0 <= a < s.len() ==> #[trigger] s[a] < orig.len(),
            forall|a: int, b: int| 0 <= a < b < s.len() ==> s[a] < s[b],
            vec@ == remove_positions(orig, position_set(s.take(j as int))),
            forall|k: int|
                (if j == 0 { 0 } else { s[j - 1] + 1 }) <= k <= orig.len() ==> #[trigger] remove_positions(
                    orig.take(k),
                    position_set(s.take(j as int)),
                ).len() == k - j,
        decreases s.len() - j,
    {
        let i = indices[j];
        let ghost idx = position_set(s.take(j as int));
        proof {
            assert(!idx.contains(i as int)) by {
                if idx.contains(i as int) {
                    let a = choose|a: int|
                        0 <= a < s.take(j as int).len() && #[trigger] as_positions(s.take(j as int))[a] == i;
                    assert(s[a] < s[j as int]);
                }
            }
            assert(position_set(s.take(j + 1)) =~= idx.insert(i as int)) by {
                assert(s.take(j + 1) =~= s.take(j as int).push(i));
                assert(as_positions(s.take(j + 1)) =~= as_positions(s.take(j as int)).push(i as int));
                as_positions(s.take(j as int)).lemma_push_to_set_commute(i as int);
            }
            if j > 0 {
                assert(s[j - 1] < s[j as int]);
            }
            lemma_remove_one_more(orig, idx, i as int);
            assert(orig.take(orig.len() as int) =~= orig);
            assert(remove_positions(orig.take(i as int), idx).len() == i - j);
            assert forall|k: int| s[j as int] + 1 <= k <= orig.len() implies #[trigger] remove_positions(
                orig.take(k),
                idx.insert(i as int),
            ).len() == k - (j + 1) by {
                lemma_remove_one_more(orig.take(k), idx, i as int);
                assert(orig.take(k).take(i as int) =~= orig.take(i as int));
            }
        }
        vec.remove(i - j);
        j += 1;
    }
    proof {
        assert(s.take(s.len() as int) =~= s);
    }
}

/// The positions at which `flags` holds `true`, as a set of integers.
pub open spec fn flagged_positions(flags: Seq<bool>) -> Set<int> {
    Set::new(|i: int| 0 <= i < flags.len() && flags[i])
}

/// The positions of the meshes that nothing but the resource list holds any more, in increasing
/// order: `unused[i]` says whether mesh `i` is unused.  These are the meshes whose vertex pool
/// placement is freed and which are then removed with `vec_remove_multiple`.
pub fn unused_positions(unused: &[bool]) -> (r: Vec<usize>)
    ensures
        position_set(r@) == flagged_positions(unused@),
        forall|a: int, b: int| 0 <= a < b < r@.len() ==> r@[a] < r@[b],
        forall|a: int| 0 <= a < r@.len() ==> #[trigger] r@[a] < unused@.len(),
        r@.no_duplicates(),
{
    let mut r: Vec<usize> = Vec::new();
    let mut i: usize = 0;
    while i < unused.len()
        invariant
            i <= unused@.len(),
            forall|a: int, b: int| 0 <= a < b < r@.len() ==> r@[a] < r@[b],
            forall|a: int| 0 <= a < r@.len() ==> #[trigger] r@[a] < i,
            forall|x: int| #[trigger] position_set(r@).contains(x) <==> (0 <= x < i && unused@[x]),
        decreases unused@.len() - i,
    {
        let ghost before = r@;
        if unused[i] {
            r.push(i);
            proof {
                assert(as_positions(r@) =~= as_positions(before).push(i as int));
                as_positions(before).lemma_push_to_set_commute(i as int);
            }
        }
        proof {
            assert forall|x: int| #[trigger] position_set(r@).contains(x) <==> (0 <= x < i + 1 && unused@[x]) by {
                assert(position_set(before).contains(x) <==> (0 <= x < i && unused@[x]));
                if unused@[i as int] {
                    assert(position_set(r@) == position_set(before).insert(i as int));
                }
            }
        }
        i = i + 1;
    }
    proof {
        assert(position_set(r@) =~= flagged_positions(unused@));
        assert forall|a: int, b: int| 0 <= a < r@.len() && 0 <= b < r@.len() && a != b implies r@[a] != r@[b] by {
            if a < b {
                assert(r@[a] < r@[b]);
            } else {
                assert(r@[b] < r@[a]);
            }
        }
    }
    r
}

/// What each slot of an acceleration structure's instance list holds after an update that
/// submitted `count` instances: slot `i` holds instance `i` while there is one, and is empty
/// after that.
pub fn instance_slot_contents(count: usize, capacity: usize) -> (r: Vec<Option<usize>>)
    requires
        count <= capacity,
    ensures
        r@.len() == capacity,
        forall|i: int| 0 <= i < capacity ==> #[trigger] r@[i] == if i < count {
            Some(i as usize)
        } else {
            None
        },
{
    let mut r: Vec<Option<usize>> = Vec::new();
    let mut i: usize = 0;
    while i < capacity
        invariant
            count <= capacity,
            i <= capacity,
            r@.len() == i,
            forall|j: int| 0 <= j < i ==> #[trigger] r@[j] == if j < count {
                Some(j as usize)
            } else {
                None
            },
        decreases capacity - i,
    {
        if i < count {
            r.push(Some(i));
        } else {
            r.push(None);
        }
        i = i + 1;
    }
    r
}

/// Whether the static instances are to be gathered and their acceleration structure rebuilt
/// at the next update: so at first, and again each time the static scene is marked changed.
pub struct StaticInstancesState {
    dirty: bool,
}

impl StaticInstancesState {
    /// Whether the next update rebuilds the static instances.
    pub closed spec fn spec_dirty(&self) -> bool {
        self.dirty
    }

    /// The static instances are built at the first update.
    pub fn new() -> (r: Self)
        ensures
            r.spec_dirty(),
    {
        StaticInstancesState { dirty: true }
    }

    /// The static scene changed: the next update rebuilds its instances.
    pub fn mark_statics_dirty(&mut self)
        ensures
            final(self).spec_dirty(),
    {
        self.dirty = true;
    }

    /// An update: says whether it rebuilds the static instances, after which they are current.
    pub fn update(&mut self) -> (rebuild: bool)
        ensures
            rebuild == old(self).spec_dirty(),
            !final(self).spec_dirty(),
    {
        let rebuild = self.dirty;
        self.dirty = false;
        rebuild
    }
}

} // verus!
