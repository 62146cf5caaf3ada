//! First-match lookup over a sequence of records.
//!
//! The opened-wallet registry and both metadata stores are linear collections
//! searched from the front. This module gives that shape one specification:
//! the first record matching a predicate, removal of that record, and the
//! uniqueness of a key over the collection, together with the lemmas the
//! collection operations are proved against.

use vstd::prelude::*;

verus! {

/// The first record of `s` matching `p`, scanning from the front.
pub open spec fn find_first<V>(s: Seq<V>, p: spec_fn(V) -> bool) -> Option<V>
    decreases s.len(),
{
    if s.len() == 0 {
        None
    } else if p(s[0]) {
        Some(s[0])
    } else {
        find_first(s.drop_first(), p)
    }
}

/// Whether some record of `s` matches `p`.
pub open spec fn has_match<V>(s: Seq<V>, p: spec_fn(V) -> bool) -> bool {
    find_first(s, p) is Some
}

/// `s` with its first record matching `p` removed; all of `s` if none matches.
pub open spec fn remove_first<V>(s: Seq<V>, p: spec_fn(V) -> bool) -> Seq<V>
    decreases s.len(),
{
    if s.len() == 0 {
        s
    } else if p(s[0]) {
        s.drop_first()
    } else {
        seq![s[0]] + remove_first(s.drop_first(), p)
    }
}

/// `i` is the index of the first record of `s` matching `p`.
pub open spec fn first_match_at<V>(s: Seq<V>, p: spec_fn(V) -> bool, i: int) -> bool {
    &&& 0 <= i < s.len()
    &&& p(s[i])
    &&& forall|j: int| 0 <= j < i ==> !p(#[trigger] s[j])
}

/// No two records of `s` carry the same key.
pub open spec fn unique_keys<V>(s: Seq<V>, key: spec_fn(V) -> Seq<char>) -> bool {
    forall|i: int, j: int| 0 <= i < j < s.len() ==> key(#[trigger] s[i]) != key(#[trigger] s[j])
}

/// When no record matches, the search comes back empty.
pub proof fn lemma_find_first_none<V>(s: Seq<V>, p: spec_fn(V) -> bool)
    requires
        forall|j: int| 0 <= j < s.len() ==> !p(#[trigger] s[j]),
    ensures
        find_first(s, p) is None,
    decreases s.len(),
{
    if s.len() > 0 {
        lemma_find_first_none(s.drop_first(), p);
    }
}

/// The search returns exactly the record at the first matching index.
pub proof fn lemma_find_first_at<V>(s: Seq<V>, p: spec_fn(V) -> bool, i: int)
    requires
        first_match_at(s, p, i),
    ensures
        find_first(s, p) == Some(s[i]),
    decreases s.len(),
{
    if i > 0 {
        lemma_find_first_at(s.drop_first(), p, i - 1);
    }
}

/// An empty search means no record matches at all.
pub proof fn lemma_find_first_none_inverted<V>(s: Seq<V>, p: spec_fn(V) -> bool)
    requires
        find_first(s, p) is None,
    ensures
        forall|j: int| 0 <= j < s.len() ==> !p(#[trigger] s[j]),
    decreases s.len(),
{
    if s.len() > 0 {
        lemma_find_first_none_inverted(s.drop_first(), p);
        assert(forall|j: int| 1 <= j < s.len() ==> s.drop_first()[j - 1] == #[trigger] s[j]);
    }
}

/// Appending a record changes the search result only when nothing matched
/// before and the new record matches.
pub proof fn lemma_find_first_push<V>(s: Seq<V>, p: spec_fn(V) -> bool, v: V)
    ensures
        find_first(s.push(v), p) == (if find_first(s, p) is Some {
            find_first(s, p)
        } else if p(v) {
            Some(v)
        } else {
            None
        }),
    decreases s.len(),
{
    if s.len() == 0 {
        assert(s.push(v)[0] == v);
        assert(s.push(v).drop_first() =~= Seq::<V>::empty());
        assert(find_first(Seq::<V>::empty(), p) is None);
    } else {
        assert(s.push(v)[0] == s[0]);
        assert(s.push(v).drop_first() =~= s.drop_first().push(v));
        lemma_find_first_push(s.drop_first(), p, v);
    }
}

/// Removing the first match is removing the record at the first matching index.
pub proof fn lemma_remove_first_at<V>(s: Seq<V>, p: spec_fn(V) -> bool, i: int)
    requires
        first_match_at(s, p, i),
    ensures
        remove_first(s, p) =~= s.remove(i),
    decreases s.len(),
{
    if i == 0 {
        assert(s.remove(0) =~= s.drop_first());
    } else {
        lemma_remove_first_at(s.drop_first(), p, i - 1);
        assert(seq![s[0]] + s.drop_first().remove(i - 1) =~= s.remove(i));
    }
}

/// When nothing matches, removal leaves the sequence as it was.
pub proof fn lemma_remove_first_none<V>(s: Seq<V>, p: spec_fn(V) -> bool)
    requires
        find_first(s, p) is None,
    ensures
        remove_first(s, p) =~= s,
    decreases s.len(),
{
    if s.len() > 0 {
        lemma_remove_first_none(s.drop_first(), p);
        assert(seq![s[0]] + s.drop_first() =~= s);
    }
}

/// Removing a record keeps every key but the removed record's unique.
pub proof fn lemma_remove_preserves_unique<V>(s: Seq<V>, key: spec_fn(V) -> Seq<char>, i: int)
    requires
        unique_keys(s, key),
        0 <= i < s.len(),
    ensures
        unique_keys(s.remove(i), key),
{
    let t = s.remove(i);
    assert forall|a: int, b: int| 0 <= a < b < t.len() implies key(#[trigger] t[a]) != key(
        #[trigger] t[b],
    ) by {
        let a0 = if a < i {
            a
        } else {
            a + 1
        };
        let b0 = if b < i {
            b
        } else {
            b + 1
        };
        assert(t[a] == s[a0]);
        assert(t[b] == s[b0]);
    }
}

/// Appending a record whose key is fresh keeps the keys unique.
pub proof fn lemma_push_preserves_unique<V>(s: Seq<V>, key: spec_fn(V) -> Seq<char>, v: V)
    requires
        unique_keys(s, key),
        forall|j: int| 0 <= j < s.len() ==> key(#[trigger] s[j]) != key(v),
    ensures
        unique_keys(s.push(v), key),
{
}

/// Removing a record that a query does not match leaves that query's search
/// result unchanged.
pub proof fn lemma_remove_first_other<V>(s: Seq<V>, p: spec_fn(V) -> bool, q: spec_fn(V) -> bool)
    requires
        forall|j: int| 0 <= j < s.len() && p(#[trigger] s[j]) ==> !q(s[j]),
    ensures
        find_first(remove_first(s, p), q) == find_first(s, q),
    decreases s.len(),
{
    if s.len() > 0 {
        if p(s[0]) {
        } else {
            lemma_remove_first_other(s.drop_first(), p, q);
            let r = seq![s[0]] + remove_first(s.drop_first(), p);
            assert(r[0] == s[0]);
            assert(r.drop_first() =~= remove_first(s.drop_first(), p));
        }
    }
}

/// After removing the only record a query matches, the query comes back empty.
pub proof fn lemma_remove_first_gone<V>(s: Seq<V>, p: spec_fn(V) -> bool, i: int)
    requires
        first_match_at(s, p, i),
        forall|j: int| 0 <= j < s.len() && j != i ==> !p(#[trigger] s[j]),
    ensures
        find_first(remove_first(s, p), p) is None,
{
    lemma_remove_first_at(s, p, i);
    let t = s.remove(i);
    assert forall|j: int| 0 <= j < t.len() implies !p(#[trigger] t[j]) by {
        let j0 = if j < i {
            j
        } else {
            j + 1
        };
        assert(t[j] == s[j0]);
    }
    lemma_find_first_none(t, p);
}

} // verus!
