//! Which shader modules and pipelines are built, and which are shared: each is known by its
//! label (for shader modules, their source), built the first time the label is asked for and
//! handed out again on every later request.  The built objects are the caller's, kept in the
//! order of their slots.
use vstd::prelude::*;

verus! {

/// The answer to a request for a label.
#[derive(Debug, Clone, Copy, PartialEq, Eq, Structural)]
pub enum CacheLookup {
    /// The label was asked for before; its object is in this slot.
    Cached(usize),
    /// The label is new: the caller builds its object, which takes this slot.
    Created(usize),
}

/// The labels asked for so far, one slot each, in the order they first came.
pub struct LabelCache {
    labels: Vec<String>,
}

/// The texts of `labels`.
pub open spec fn label_texts(labels: Seq<String>) -> Seq<Seq<char>> {
    labels.map_values(|s: String| s@)
}

/// What a request for `label` does to the labels `old`, answering `r` and leaving `new`: a label
/// asked for before keeps its slot, a new one takes the next slot.
pub open spec fn lookup_post(
    old: Seq<Seq<char>>,
    label: Seq<char>,
    r: CacheLookup,
    new: Seq<Seq<char>>,
) -> bool {
    &&& (r is Cached) <==> old.contains(label)
    &&& match r {
        CacheLookup::Cached(i) => i < old.len() && old[i as int] == label && new == old,
        CacheLookup::Created(i) => i == old.len() && new == old.push(label),
    }
}

/// The slot `labels` gives `label` when it holds it.
pub open spec fn slot_of(labels: Seq<Seq<char>>, label: Seq<char>) -> usize {
    choose|i: usize| i < labels.len() && labels[i as int] == label
}

/// The answer to a request for `label` from the labels `labels`, and the labels after it.
pub open spec fn spec_lookup(labels: Seq<Seq<char>>, label: Seq<char>) -> (CacheLookup, Seq<Seq<char>>) {
    if labels.contains(label) {
        (CacheLookup::Cached(slot_of(labels, label)), labels)
    } else {
        (CacheLookup::Created(labels.len() as usize), labels.push(label))
    }
}

/// The labels after requests for each of `requests`, in order, from the labels `labels`.
pub open spec fn labels_after(labels: Seq<Seq<char>>, requests: Seq<Seq<char>>) -> Seq<Seq<char>>
    decreases requests.len(),
{
    if requests.len() == 0 {
        labels
    } else {
        labels_after(spec_lookup(labels, requests[0]).1, requests.drop_first())
    }
}

/// A request keeps the labels distinct and the slots they held; a distinct table answers
/// exactly as `spec_lookup` says.
proof fn lemma_lookup_step(labels: Seq<Seq<char>>, label: Seq<char>, r: CacheLookup, new: Seq<Seq<char>>)
    requires
        labels.no_duplicates(),
        lookup_post(labels, label, r, new),
    ensures
        (r, new) == spec_lookup(labels, label),
{
    if let CacheLookup::Cached(i) = r {
        let j = slot_of(labels, label);
        assert(i < labels.len() && labels[i as int] == label);
        assert(j < labels.len() && labels[j as int] == label);
    }
}

/// Requests only add labels at the end: every slot keeps its label, and no label is held twice.
proof fn lemma_labels_after_extend(labels: Seq<Seq<char>>, requests: Seq<Seq<char>>)
    requires
        labels.no_duplicates(),
    ensures
        labels_after(labels, requests).no_duplicates(),
        labels.len() <= labels_after(labels, requests).len() <= labels.len() + requests.len(),
        labels_after(labels, requests).subrange(0, labels.len() as int) == labels,
    decreases requests.len(),
{
    if requests.len() > 0 {
        let next = spec_lookup(labels, requests[0]).1;
        if !labels.contains(requests[0]) {
            assert forall|a: int, b: int| 0 <= a < next.len() && 0 <= b < next.len() && a != b implies next[a]
                != next[b] by {
                if a < labels.len() && b < labels.len() {
                } else if a < labels.len() {
                    assert(labels.contains(labels[a]));
                } else {
                    assert(labels.contains(labels[b]));
                }
            }
        }
        lemma_labels_after_extend(next, requests.drop_first());
        let after = labels_after(next, requests.drop_first());
        assert(after.subrange(0, labels.len() as int) =~= after.subrange(0, next.len() as int).subrange(
            0,
            labels.len() as int,
        ));
        assert(next.subrange(0, labels.len() as int) =~= labels);
    }
}

impl LabelCache {
    /// The label of each slot.
    pub closed spec fn spec_labels(&self) -> Seq<Seq<char>> {
        label_texts(self.labels@)
    }

    /// No label holds two slots.
    pub closed spec fn wf(&self) -> bool {
        self.spec_labels().no_duplicates()
    }

    /// No label yet.
    pub fn new() -> (r: Self)
        ensures
            r.spec_labels() == Seq::<Seq<char>>::empty(),
            r.wf(),
    {
        let r = LabelCache { labels: Vec::new() };
        assert(r.spec_labels() =~= Seq::<Seq<char>>::empty());
        r
    }

    /// Number of slots given out.
    pub fn len(&self) -> (r: usize)
        ensures
            r == self.spec_labels().len(),
    {
        self.labels.len()
    }

    /// The slot of `label`: the one it holds, or else the next slot, which it now holds.
    pub fn lookup(&mut self, label: &str) -> (r: CacheLookup)
        ensures
            old(self).wf() ==> final(self).wf(),
            lookup_post(old(self).spec_labels(), label@, r, final(self).spec_labels()),
            old(self).wf() ==> (r, final(self).spec_labels()) == spec_lookup(old(self).spec_labels(), label@),
    {
        let key = label.to_owned();
        let mut i: usize = 0;
        while i < self.labels.len()
            invariant
                key@ == label@,
                i <= self.labels@.len(),
                self.labels == old(self).labels,
                forall|j: int| 0 <= j < i ==> #[trigger] label_texts(self.labels@)[j] != label@,
            decreases self.labels@.len() - i,
        {
            if self.labels[i] == key {
                proof {
                    assert(old(self).spec_labels()[i as int] == label@);
                    assert(old(self).spec_labels().contains(label@));
                    if old(self).wf() {
                        lemma_lookup_step(
                            old(self).spec_labels(),
                            label@,
                            CacheLookup::Cached(i),
                            self.spec_labels(),
                        );
                    }
                }
                return CacheLookup::Cached(i);
            }
            i = i + 1;
        }
        let ghost before = self.spec_labels();
        let n = self.labels.len();
        self.labels.push(key);
        proof {
            assert(self.spec_labels() =~= before.push(label@));
            assert(!before.contains(label@)) by {
                if before.contains(label@) {
                    let j = choose|j: int| 0 <= j < before.len() && before[j] == label@;
                    assert(label_texts(old(self).labels@)[j] != label@);
                }
            }
            if before.no_duplicates() {
                assert forall|a: int, b: int|
                    0 <= a < self.spec_labels().len() && 0 <= b < self.spec_labels().len() && a != b
                    implies self.spec_labels()[a] != self.spec_labels()[b] by {
                    if a < before.len() && b < before.len() {
                    } else if a < before.len() {
                        assert(before.contains(before[a]));
                    } else {
                        assert(before.contains(before[b]));
                    }
                }
            }
        }
        proof {
            if old(self).wf() {
                lemma_lookup_step(before, label@, CacheLookup::Created(n), self.spec_labels());
            }
        }
        CacheLookup::Created(n)
    }
}

/// Asking twice for the same label gives the same slot, and only the first answer asks for the
/// object to be built.
pub proof fn lemma_built_once(
    s0: Seq<Seq<char>>,
    label: Seq<char>,
    r1: CacheLookup,
    s1: Seq<Seq<char>>,
    r2: CacheLookup,
    s2: Seq<Seq<char>>,
)
    requires
        s0.no_duplicates(),
        lookup_post(s0, label, r1, s1),
        lookup_post(s1, label, r2, s2),
    ensures
        match (r1, r2) {
            (CacheLookup::Cached(i), CacheLookup::Cached(j)) => i == j,
            (CacheLookup::Created(i), CacheLookup::Cached(j)) => i == j,
            _ => false,
        },
        s2 == s1,
{
    match r1 {
        CacheLookup::Cached(i) => {
            assert(s1[i as int] == label);
        },
        CacheLookup::Created(i) => {
            assert(s1[i as int] == label);
        },
    }
    assert(s1.contains(label));
    assert(s1.no_duplicates()) by {
        if r1 is Created {
            assert forall|a: int, b: int| 0 <= a < s1.len() && 0 <= b < s1.len() && a != b implies s1[a]
                != s1[b] by {
                if a < s0.len() && b < s0.len() {
                } else if a < s0.len() {
                    assert(s0.contains(s0[a]));
                } else {
                    assert(s0.contains(s0[b]));
                }
            }
        }
    }
}

/// A label asked for once is answered from the cache on every later request, whatever was
/// asked for in between: with the slot it got the first time, and with nothing built.
pub proof fn lemma_built_once_for_good(
    labels: Seq<Seq<char>>,
    label: Seq<char>,
    between: Seq<Seq<char>>,
)
    requires
        labels.no_duplicates(),
        labels.len() + between.len() < usize::MAX,
    ensures
        ({
            let (first, after_first) = spec_lookup(labels, label);
            let before_again = labels_after(after_first, between);
            let (again, after_again) = spec_lookup(before_again, label);
            &&& again is Cached
            &&& after_again == before_again
            &&& match (first, again) {
                (CacheLookup::Cached(i), CacheLookup::Cached(j)) => i == j,
                (CacheLookup::Created(i), CacheLookup::Cached(j)) => i == j,
                _ => false,
            }
        }),
{
    let (first, s1) = spec_lookup(labels, label);
    let i: usize = match first {
        CacheLookup::Cached(i) => i,
        CacheLookup::Created(i) => i,
    };
    assert(s1[i as int] == label) by {
        if labels.contains(label) {
            let j = choose|j: int| 0 <= j < labels.len() && labels[j] == label;
            assert((j as usize) < labels.len() && labels[(j as usize) as int] == label);
        }
    }
    assert(s1.no_duplicates()) by {
        if !labels.contains(label) {
            assert forall|a: int, b: int| 0 <= a < s1.len() && 0 <= b < s1.len() && a != b implies s1[a]
                != s1[b] by {
                if a < labels.len() && b < labels.len() {
                } else if a < labels.len() {
                    assert(labels.contains(labels[a]));
                } else {
                    assert(labels.contains(labels[b]));
                }
            }
        }
    }
    lemma_labels_after_extend(s1, between);
    let s2 = labels_after(s1, between);
    assert(s2[i as int] == s2.subrange(0, s1.len() as int)[i as int]);
    assert(s2.contains(label));
    assert(i < s2.len() && s2[i as int] == label);
}

} // verus!
