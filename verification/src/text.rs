//! Strings as sequences of characters, and the few sequence facts the rest of
//! the crate leans on.

use vstd::prelude::*;

verus! {

/// The character sequences of a list of strings, in the same order.
pub open spec fn text_views(strings: Seq<String>) -> Seq<Seq<char>> {
    strings.map_values(|s: String| s@)
}

/// Whether two string slices hold the same characters in the same order.
pub(crate) fn str_eq(a: &str, b: &str) -> (same: bool)
    ensures
        same == (a@ == b@),
{
    let left = a.to_owned();
    let right = b.to_owned();
    left == right
}

/// Filtering a sequence that grew by one element either keeps or drops that element.
pub proof fn lemma_filter_push<A>(s: Seq<A>, x: A, keep: spec_fn(A) -> bool)
    ensures
        s.push(x).filter(keep) == if keep(x) {
            s.filter(keep).push(x)
        } else {
            s.filter(keep)
        },
{
    reveal(Seq::filter);
    assert(s.push(x).drop_last() =~= s);
}

/// Every element that survives a filter was in the sequence and passes the test,
/// and every element of the sequence that passes the test survives.
pub proof fn lemma_filter_contains<A>(s: Seq<A>, keep: spec_fn(A) -> bool, x: A)
    ensures
        s.filter(keep).contains(x) <==> (s.contains(x) && keep(x)),
    decreases s.len(),
{
    reveal(Seq::filter);
    if s.len() > 0 {
        let rest = s.drop_last();
        lemma_filter_contains(rest, keep, x);
        if s.contains(x) && keep(x) {
            let i = choose|i: int| 0 <= i < s.len() && s[i] == x;
            if i < s.len() - 1 {
                assert(rest[i] == x);
            }
        }
        if keep(s.last()) {
            let f = rest.filter(keep);
            assert(f.push(s.last())[f.len() as int] == s.last());
            assert(forall|i: int| 0 <= i < f.len() ==> f.push(s.last())[i] == f[i]);
        }
        if rest.contains(x) {
            let i = choose|i: int| 0 <= i < rest.len() && rest[i] == x;
            assert(s[i] == x);
        }
        assert(s[s.len() - 1] == s.last());
    }
}

/// Filtering keeps a sequence free of repeats.
pub proof fn lemma_filter_no_duplicates<A>(s: Seq<A>, keep: spec_fn(A) -> bool)
    requires
        s.no_duplicates(),
    ensures
        s.filter(keep).no_duplicates(),
    decreases s.len(),
{
    reveal(Seq::filter);
    if s.len() > 0 {
        let rest = s.drop_last();
        lemma_filter_no_duplicates(rest, keep);
        if keep(s.last()) {
            lemma_filter_contains(rest, keep, s.last());
            if rest.contains(s.last()) {
                let i = choose|i: int| 0 <= i < rest.len() && rest[i] == s.last();
                assert(s[i] == s[s.len() - 1]);
            }
        }
    }
}

/// Filtering an empty sequence leaves it empty.
pub proof fn lemma_filter_empty<A>(keep: spec_fn(A) -> bool)
    ensures
        Seq::<A>::empty().filter(keep) == Seq::<A>::empty(),
{
    reveal(Seq::filter);
}

/// A filter whose test no element passes yields the empty sequence.
pub proof fn lemma_filter_none<A>(s: Seq<A>, keep: spec_fn(A) -> bool)
    requires
        forall|i: int| 0 <= i < s.len() ==> !keep(#[trigger] s[i]),
    ensures
        s.filter(keep) == Seq::<A>::empty(),
    decreases s.len(),
{
    reveal(Seq::filter);
    if s.len() > 0 {
        lemma_filter_none(s.drop_last(), keep);
    }
}

/// In a sequence without repeats an element's position is the one place where it stands.
pub proof fn lemma_index_of_unique<A>(s: Seq<A>, i: int)
    requires
        s.no_duplicates(),
        0 <= i < s.len(),
    ensures
        s.index_of(s[i]) == i,
        s.contains(s[i]),
{
    let j = s.index_of(s[i]);
    assert(s.contains(s[i]));
    assert(0 <= j < s.len() && s[j] == s[i]);
}

/// The position of an element that a sequence holds lies within the sequence
/// and the element stands there.
pub proof fn lemma_index_of_within<A>(s: Seq<A>, x: A)
    requires
        s.contains(x),
    ensures
        0 <= s.index_of(x) < s.len(),
        s[s.index_of(x)] == x,
{
}

/// Whether the list `texts` holds a string of the characters of `wanted`.
pub fn contains_text(texts: &Vec<String>, wanted: &str) -> (held: bool)
    ensures
        held == text_views(texts@).contains(wanted@),
{
    let mut i: usize = 0;
    while i < texts.len()
        invariant
            i <= texts.len(),
            forall|j: int| 0 <= j < i ==> text_views(texts@)[j] != wanted@,
        decreases texts.len() - i,
    {
        if str_eq(texts[i].as_str(), wanted) {
            assert(text_views(texts@)[i as int] == wanted@);
            return true;
        }
        i = i + 1;
    }
    false
}

/// A list after `x` was added as to a set: unchanged where it holds `x`.
pub open spec fn set_insert(s: Seq<Seq<char>>, x: Seq<char>) -> Seq<Seq<char>> {
    if s.contains(x) {
        s
    } else {
        s.push(x)
    }
}

/// Adds `text` to `texts` unless a string of the same characters is there.
pub fn insert_text(texts: &mut Vec<String>, text: String)
    ensures
        text_views(final(texts)@) == set_insert(text_views(old(texts)@), text@),
{
    if !contains_text(texts, text.as_str()) {
        let ghost before = text_views(texts@);
        let ghost t = text@;
        texts.push(text);
        assert(text_views(texts@) =~= before.push(t));
    }
}

} // verus!
