//! Runtime sets: the execution contexts a chunk is valid for, with the set
//! arithmetic the hot-update diff needs.

use vstd::prelude::*;
use crate::text::{
    lemma_filter_contains, lemma_filter_empty, lemma_filter_no_duplicates, lemma_filter_push,
    str_eq, text_views,
};

verus! {

/// What the union of two runtime lists is: the first list, then those tags of
/// the second that the first lacks, in the second's order.
pub open spec fn runtime_union(a: Seq<Seq<char>>, b: Seq<Seq<char>>) -> Seq<Seq<char>> {
    a + b.filter(|t: Seq<char>| !a.contains(t))
}

/// The tags of `a` that `b` holds too, in `a`'s order.
pub open spec fn runtime_intersection(a: Seq<Seq<char>>, b: Seq<Seq<char>>) -> Seq<Seq<char>> {
    a.filter(|t: Seq<char>| b.contains(t))
}

/// The tags of `a` that `b` lacks, in `a`'s order.
pub open spec fn runtime_difference(a: Seq<Seq<char>>, b: Seq<Seq<char>>) -> Seq<Seq<char>> {
    a.filter(|t: Seq<char>| !b.contains(t))
}

/// A set of runtime tags. The tags are kept in the order in which they first
/// arrived, and no tag occurs twice.
#[derive(Debug)]
pub struct RuntimeSpec {
    tags: Vec<String>,
}

impl View for RuntimeSpec {
    type V = Seq<Seq<char>>;

    closed spec fn view(&self) -> Seq<Seq<char>> {
        text_views(self.tags@)
    }
}

impl RuntimeSpec {
    /// No tag occurs twice.
    pub open spec fn wf(&self) -> bool {
        self@.no_duplicates()
    }

    /// The tags as a mathematical set.
    pub open spec fn set(&self) -> Set<Seq<char>> {
        self@.to_set()
    }

    /// The empty runtime set.
    pub fn new() -> (r: Self)
        ensures
            r@ == Seq::<Seq<char>>::empty(),
            r.wf(),
    {
        let r = RuntimeSpec { tags: Vec::new() };
        assert(r@ =~= Seq::<Seq<char>>::empty());
        r
    }

    /// Number of tags.
    pub fn len(&self) -> (n: usize)
        ensures
            n == self@.len(),
    {
        self.tags.len()
    }

    /// Whether there is no tag at all.
    pub fn is_empty(&self) -> (b: bool)
        ensures
            b == (self@.len() == 0),
    {
        self.tags.len() == 0
    }

    /// The tag at position `i`.
    pub fn get(&self, i: usize) -> (tag: &String)
        requires
            i < self@.len(),
        ensures
            tag@ == self@[i as int],
    {
        &self.tags[i]
    }

    /// Whether `tag` is in the set.
    pub fn contains(&self, tag: &str) -> (b: bool)
        ensures
            b == self@.contains(tag@),
    {
        let mut i: usize = 0;
        while i < self.tags.len()
            invariant
                i <= self.tags.len(),
                forall|j: int| 0 <= j < i ==> self@[j] != tag@,
            decreases self.tags.len() - i,
        {
            if str_eq(self.tags[i].as_str(), tag) {
                assert(self@[i as int] == tag@);
                return true;
            }
            i = i + 1;
        }
        false
    }

    /// Adds `tag` unless it is there already; says whether it was added.
    pub fn insert(&mut self, tag: String) -> (added: bool)
        requires
            old(self).wf(),
        ensures
            final(self).wf(),
            added == !old(self)@.contains(tag@),
            final(self)@ == if added {
                old(self)@.push(tag@)
            } else {
                old(self)@
            },
    {
        if self.contains(tag.as_str()) {
            false
        } else {
            let ghost before = self@;
            let ghost t = tag@;
            self.tags.push(tag);
            assert(self@ =~= before.push(t));
            true
        }
    }

    /// Adds every tag of `other` that is missing, in `other`'s order.
    pub fn extend(&mut self, other: &RuntimeSpec)
        requires
            old(self).wf(),
            other.wf(),
        ensures
            final(self).wf(),
            final(self)@ == runtime_union(old(self)@, other@),
    {
        let ghost a = self@;
        let ghost lacking = |t: Seq<char>| !a.contains(t);
        let mut i: usize = 0;
        proof {
            lemma_filter_empty(lacking);
            assert(other@.take(0) =~= Seq::<Seq<char>>::empty());
            assert(self@ =~= a + other@.take(0).filter(lacking));
        }
        while i < other.tags.len()
            invariant
                i <= other.tags.len(),
                self.wf(),
                other.wf(),
                a == old(self)@,
                lacking == (|t: Seq<char>| !a.contains(t)),
                self@ == a + other@.take(i as int).filter(lacking),
            decreases other.tags.len() - i,
        {
            let ghost seen = other@.take(i as int);
            let ghost before = self@;
            let tag = other.tags[i].clone();
            assert(tag@ == other@[i as int]);
            proof {
                assert(other@.take(i + 1) =~= seen.push(tag@));
                lemma_filter_push(seen, tag@, lacking);
                lemma_filter_contains(seen, lacking, tag@);
            }
            let added = self.insert(tag);
            proof {
                if a.contains(tag@) {
                    assert(before.contains(tag@)) by {
                        let k = choose|k: int| 0 <= k < a.len() && a[k] == tag@;
                        assert(before[k] == tag@);
                    }
                } else if before.contains(tag@) {
                    let k = choose|k: int| 0 <= k < before.len() && before[k] == tag@;
                    if k < a.len() {
                        assert(a[k] == tag@);
                    }
                    assert(seen.filter(lacking)[k - a.len()] == tag@);
                    assert(seen.filter(lacking).contains(tag@));
                    let j = choose|j: int| 0 <= j < seen.len() && seen[j] == tag@;
                    assert(other@[j] == other@[i as int]);
                } else {
                    assert(self@ =~= a + seen.filter(lacking).push(tag@));
                }
            }
            i = i + 1;
        }
        assert(other@.take(other@.len() as int) =~= other@);
    }

    /// The tags of `self` that `other` holds too.
    pub fn intersect(&self, other: &RuntimeSpec) -> (r: RuntimeSpec)
        requires
            self.wf(),
        ensures
            r.wf(),
            r@ == runtime_intersection(self@, other@),
    {
        let ghost shared = |t: Seq<char>| other@.contains(t);
        let mut out: Vec<String> = Vec::new();
        let mut i: usize = 0;
        proof {
            lemma_filter_empty(shared);
            assert(self@.take(0) =~= Seq::<Seq<char>>::empty());
            assert(text_views(out@) =~= self@.take(0).filter(shared));
        }
        while i < self.tags.len()
            invariant
                i <= self.tags.len(),
                shared == (|t: Seq<char>| other@.contains(t)),
                text_views(out@) == self@.take(i as int).filter(shared),
            decreases self.tags.len() - i,
        {
            let ghost seen = self@.take(i as int);
            let ghost before = text_views(out@);
            proof {
                assert(self@.take(i + 1) =~= seen.push(self@[i as int]));
                lemma_filter_push(seen, self@[i as int], shared);
            }
            if other.contains(self.tags[i].as_str()) {
                let tag = self.tags[i].clone();
                out.push(tag);
                assert(text_views(out@) =~= before.push(self@[i as int]));
            }
            i = i + 1;
        }
        proof {
            assert(self@.take(self@.len() as int) =~= self@);
            lemma_filter_no_duplicates(self@, shared);
        }
        RuntimeSpec { tags: out }
    }

    /// The tags of `self` that `other` lacks.
    pub fn subtract(&self, other: &RuntimeSpec) -> (r: RuntimeSpec)
        requires
            self.wf(),
        ensures
            r.wf(),
            r@ == runtime_difference(self@, other@),
    {
        let ghost lacking = |t: Seq<char>| !other@.contains(t);
        let mut out: Vec<String> = Vec::new();
        let mut i: usize = 0;
        proof {
            lemma_filter_empty(lacking);
            assert(self@.take(0) =~= Seq::<Seq<char>>::empty());
            assert(text_views(out@) =~= self@.take(0).filter(lacking));
        }
        while i < self.tags.len()
            invariant
                i <= self.tags.len(),
                lacking == (|t: Seq<char>| !other@.contains(t)),
                text_views(out@) == self@.take(i as int).filter(lacking),
            decreases self.tags.len() - i,
        {
            let ghost seen = self@.take(i as int);
            let ghost before = text_views(out@);
            proof {
                assert(self@.take(i + 1) =~= seen.push(self@[i as int]));
                lemma_filter_push(seen, self@[i as int], lacking);
            }
            if !other.contains(self.tags[i].as_str()) {
                let tag = self.tags[i].clone();
                out.push(tag);
                assert(text_views(out@) =~= before.push(self@[i as int]));
            }
            i = i + 1;
        }
        proof {
            assert(self@.take(self@.len() as int) =~= self@);
            lemma_filter_no_duplicates(self@, lacking);
        }
        RuntimeSpec { tags: out }
    }

    /// The tags as owned strings, in order.
    pub fn to_vec(&self) -> (tags: Vec<String>)
        ensures
            text_views(tags@) == self@,
    {
        let tags = self.tags.clone();
        assert(tags@ =~= self.tags@);
        tags
    }
}

impl Clone for RuntimeSpec {
    fn clone(&self) -> (r: Self)
        ensures
            r@ == self@,
    {
        let tags = self.tags.clone();
        assert(tags@ =~= self.tags@);
        RuntimeSpec { tags }
    }
}

impl Default for RuntimeSpec {
    fn default() -> (r: Self)
        ensures
            r@ == Seq::<Seq<char>>::empty(),
            r.wf(),
    {
        RuntimeSpec::new()
    }
}

/// Intersection and difference split a runtime set: every tag of `a` lands in
/// exactly one of the two, and nothing else does.
pub proof fn lemma_runtime_split(a: Seq<Seq<char>>, b: Seq<Seq<char>>, t: Seq<char>)
    ensures
        a.contains(t) <==> (runtime_intersection(a, b).contains(t) || runtime_difference(
            a,
            b,
        ).contains(t)),
        !(runtime_intersection(a, b).contains(t) && runtime_difference(a, b).contains(t)),
        runtime_intersection(a, b).contains(t) <==> (a.contains(t) && b.contains(t)),
        runtime_difference(a, b).contains(t) <==> (a.contains(t) && !b.contains(t)),
{
    lemma_filter_contains(a, |x: Seq<char>| b.contains(x), t);
    lemma_filter_contains(a, |x: Seq<char>| !b.contains(x), t);
}

/// As sets, the three operations are union, intersection and difference.
pub proof fn lemma_runtime_arithmetic_sets(a: Seq<Seq<char>>, b: Seq<Seq<char>>)
    ensures
        runtime_union(a, b).to_set() == a.to_set().union(b.to_set()),
        runtime_intersection(a, b).to_set() == a.to_set().intersect(b.to_set()),
        runtime_difference(a, b).to_set() == a.to_set().difference(b.to_set()),
{
    let lacking = |t: Seq<char>| !a.contains(t);
    assert forall|t: Seq<char>|
        runtime_union(a, b).to_set().contains(t) <==> a.to_set().union(b.to_set()).contains(
            t,
        ) by {
        lemma_filter_contains(b, lacking, t);
        let tail = b.filter(lacking);
        if a.contains(t) {
            let k = choose|k: int| 0 <= k < a.len() && a[k] == t;
            assert((a + tail)[k] == t);
        }
        if tail.contains(t) {
            let k = choose|k: int| 0 <= k < tail.len() && tail[k] == t;
            assert((a + tail)[a.len() + k] == t);
        }
        if (a + tail).contains(t) {
            let k = choose|k: int| 0 <= k < (a + tail).len() && (a + tail)[k] == t;
            if k < a.len() {
                assert(a[k] == t);
            } else {
                assert(tail[k - a.len()] == t);
            }
        }
    }
    assert(runtime_union(a, b).to_set() =~= a.to_set().union(b.to_set()));
    assert forall|t: Seq<char>|
        runtime_intersection(a, b).to_set().contains(t) <==> a.to_set().intersect(
            b.to_set(),
        ).contains(t) by {
        lemma_runtime_split(a, b, t);
    }
    assert(runtime_intersection(a, b).to_set() =~= a.to_set().intersect(b.to_set()));
    assert forall|t: Seq<char>|
        runtime_difference(a, b).to_set().contains(t) <==> a.to_set().difference(
            b.to_set(),
        ).contains(t) by {
        lemma_runtime_split(a, b, t);
    }
    assert(runtime_difference(a, b).to_set() =~= a.to_set().difference(b.to_set()));
}

/// The union of two runtime lists without repeats has no repeats.
pub proof fn lemma_runtime_union_no_duplicates(a: Seq<Seq<char>>, b: Seq<Seq<char>>)
    requires
        a.no_duplicates(),
        b.no_duplicates(),
    ensures
        runtime_union(a, b).no_duplicates(),
{
    let lacking = |t: Seq<char>| !a.contains(t);
    let tail = b.filter(lacking);
    lemma_filter_no_duplicates(b, lacking);
    assert forall|i: int, j: int| 0 <= i < a.len() && 0 <= j < tail.len() implies a[i]
        != tail[j] by {
        lemma_filter_contains(b, lacking, tail[j]);
        assert(tail.contains(tail[j]));
    }
    vstd::seq_lib::lemma_no_dup_in_concat(a, tail);
}

} // verus!
