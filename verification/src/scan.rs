//! First-match positions and match counts over sequences.
//!
//! The store keys its tables by value (a user key, a directed pair of keys,
//! a canonical content id): each lookup is "the first row satisfying a
//! predicate", and each uniqueness argument is "at most one row satisfies
//! it".  These spec functions and lemmas carry that reasoning once, for
//! every table.

use vstd::prelude::*;

verus! {

/// The position of the first element satisfying `p`, or `-1`.
pub open spec fn first_match<T>(s: Seq<T>, p: spec_fn(T) -> bool) -> int
    decreases s.len(),
{
    if s.len() == 0 {
        -1
    } else if p(s[0]) {
        0
    } else if first_match(s.drop_first(), p) == -1 {
        -1
    } else {
        1 + first_match(s.drop_first(), p)
    }
}

/// How many elements satisfy `p`.
pub open spec fn count_matches<T>(s: Seq<T>, p: spec_fn(T) -> bool) -> int
    decreases s.len(),
{
    if s.len() == 0 {
        0
    } else {
        (if p(s[0]) {
            1int
        } else {
            0int
        }) + count_matches(s.drop_first(), p)
    }
}

/// Where `first_match` points: at the first satisfying element, or nowhere.
pub proof fn lemma_first_match<T>(s: Seq<T>, p: spec_fn(T) -> bool)
    ensures
        ({
            let i = first_match(s, p);
            &&& i == -1 ==> forall|j: int| 0 <= j < s.len() ==> !p(s[j])
            &&& i != -1 ==> 0 <= i < s.len() && p(s[i]) && (forall|j: int| 0 <= j < i ==> !p(s[j]))
        }),
    decreases s.len(),
{
    if s.len() > 0 && !p(s[0]) {
        let t = s.drop_first();
        lemma_first_match(t, p);
        assert(forall|j: int| 0 < j < s.len() ==> s[j] == t[j - 1]);
        if first_match(t, p) == -1 {
            assert forall|j: int| 0 <= j < s.len() implies !p(s[j]) by {
                if j > 0 {
                    assert(!p(t[j - 1]));
                }
            }
        } else {
            let i = first_match(s, p);
            assert(s[i] == t[i - 1]);
            assert forall|j: int| 0 <= j < i implies !p(s[j]) by {
                if j > 0 {
                    assert(!p(t[j - 1]));
                }
            }
        }
    }
}

/// A first satisfying position pins `first_match`.
pub proof fn lemma_first_match_at<T>(s: Seq<T>, p: spec_fn(T) -> bool, i: int)
    requires
        0 <= i < s.len(),
        p(s[i]),
        forall|j: int| 0 <= j < i ==> !p(s[j]),
    ensures
        first_match(s, p) == i,
    decreases i,
{
    if i > 0 {
        lemma_first_match_at(s.drop_first(), p, i - 1);
    }
}

/// Appending adds to the count exactly when the new element satisfies `p`.
pub proof fn lemma_count_matches_push<T>(s: Seq<T>, p: spec_fn(T) -> bool, e: T)
    ensures
        count_matches(s.push(e), p) == count_matches(s, p) + (if p(e) {
            1int
        } else {
            0int
        }),
    decreases s.len(),
{
    if s.len() == 0 {
        assert(s.push(e).drop_first() =~= s);
    } else {
        assert(s.push(e).drop_first() =~= s.drop_first().push(e));
        lemma_count_matches_push(s.drop_first(), p, e);
    }
}

/// Replacing an element without changing whether it satisfies `p` keeps the
/// count.
pub proof fn lemma_count_matches_update<T>(s: Seq<T>, p: spec_fn(T) -> bool, i: int, e: T)
    requires
        0 <= i < s.len(),
        p(e) == p(s[i]),
    ensures
        count_matches(s.update(i, e), p) == count_matches(s, p),
    decreases s.len(),
{
    if i == 0 {
        assert(s.update(i, e)[0] == e);
        assert(s.update(i, e).drop_first() =~= s.drop_first());
    } else {
        assert(s.update(i, e)[0] == s[0]);
        assert(s.update(i, e).drop_first() =~= s.drop_first().update(i - 1, e));
        lemma_count_matches_update(s.drop_first(), p, i - 1, e);
    }
}

/// With at most one satisfying element, the count is zero or one as
/// `first_match` misses or hits.
pub proof fn lemma_count_matches_unique<T>(s: Seq<T>, p: spec_fn(T) -> bool)
    requires
        forall|i: int, j: int| 0 <= i < j < s.len() ==> !(p(s[i]) && p(s[j])),
    ensures
        count_matches(s, p) == if first_match(s, p) == -1 {
            0int
        } else {
            1int
        },
    decreases s.len(),
{
    if s.len() > 0 {
        let t = s.drop_first();
        assert forall|i: int, j: int| 0 <= i < j < t.len() implies !(p(t[i]) && p(t[j])) by {
            assert(t[i] == s[i + 1]);
            assert(t[j] == s[j + 1]);
            assert(!(p(s[i + 1]) && p(s[j + 1])));
        }
        lemma_count_matches_unique(t, p);
        lemma_first_match(t, p);
        if p(s[0]) {
            if first_match(t, p) != -1 {
                let k = first_match(t, p);
                assert(p(t[k]));
                assert(t[k] == s[k + 1]);
                assert(!(p(s[0]) && p(s[k + 1])));
                assert(false);
            }
            assert(count_matches(s, p) == 1 + count_matches(t, p));
            assert(count_matches(t, p) == 0);
            assert(first_match(s, p) == 0);
        } else {
            assert(count_matches(s, p) == count_matches(t, p));
        }
    }
}

} // verus!
