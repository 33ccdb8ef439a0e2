//! The first element of a sequence with a given property.

use vstd::prelude::*;

verus! {

/// The place of the first element of `s` that satisfies `p`.
pub open spec fn first_where<T>(s: Seq<T>, p: spec_fn(T) -> bool) -> Option<int>
    decreases s.len(),
{
    if s.len() == 0 {
        None
    } else if p(s[0]) {
        Some(0)
    } else {
        match first_where(s.drop_first(), p) {
            Some(i) => Some(i + 1),
            None => None,
        }
    }
}

/// `first_where` gives a place whose element satisfies `p`, with none before
/// it that does; it gives nothing exactly when no element satisfies `p`.
pub proof fn lemma_first_where<T>(s: Seq<T>, p: spec_fn(T) -> bool)
    ensures
        match first_where(s, p) {
            Some(i) => 0 <= i < s.len() && p(s[i]) && forall|k: int| 0 <= k < i ==> !p(#[trigger] s[k]),
            None => forall|k: int| 0 <= k < s.len() ==> !p(#[trigger] s[k]),
        },
    decreases s.len(),
{
    if s.len() > 0 && !p(s[0]) {
        let rest = s.drop_first();
        lemma_first_where(rest, p);
        match first_where(rest, p) {
            Some(i) => {
                assert forall|k: int| 0 <= k < i + 1 implies !p(#[trigger] s[k]) by {
                    if k > 0 {
                        assert(rest[k - 1] == s[k]);
                    }
                }
            },
            None => {
                assert forall|k: int| 0 <= k < s.len() implies !p(#[trigger] s[k]) by {
                    if k > 0 {
                        assert(rest[k - 1] == s[k]);
                    }
                }
            },
        }
    }
}

/// A place whose element satisfies `p`, with none before it that does, is the
/// one that `first_where` gives.
pub proof fn lemma_first_where_is<T>(s: Seq<T>, p: spec_fn(T) -> bool, at: int)
    requires
        0 <= at < s.len(),
        p(s[at]),
        forall|k: int| 0 <= k < at ==> !p(#[trigger] s[k]),
    ensures
        first_where(s, p) == Some(at),
{
    lemma_first_where(s, p);
}

/// Where no element satisfies `p`, `first_where` gives nothing.
pub proof fn lemma_first_where_none<T>(s: Seq<T>, p: spec_fn(T) -> bool)
    requires
        forall|k: int| 0 <= k < s.len() ==> !p(#[trigger] s[k]),
    ensures
        first_where(s, p) is None,
{
    lemma_first_where(s, p);
}

/// Two sequences whose elements satisfy, place by place, the one `p` and the
/// other `q` alike, have their first such element at the same place.
pub proof fn lemma_first_where_alike<A, B>(
    s: Seq<A>,
    p: spec_fn(A) -> bool,
    t: Seq<B>,
    q: spec_fn(B) -> bool,
)
    requires
        s.len() == t.len(),
        forall|k: int| 0 <= k < s.len() ==> p(#[trigger] s[k]) == q(t[k]),
    ensures
        first_where(s, p) == first_where(t, q),
{
    lemma_first_where(s, p);
    lemma_first_where(t, q);
    match first_where(s, p) {
        Some(i) => {
            assert(q(t[i]));
            match first_where(t, q) {
                Some(j) => {
                    if j < i {
                        assert(!p(s[j]));
                    }
                    if i < j {
                        assert(!q(t[i]));
                    }
                },
                None => {
                    assert(!q(t[i]));
                },
            }
        },
        None => {
            match first_where(t, q) {
                Some(j) => {
                    assert(!p(s[j]));
                },
                None => {},
            }
        },
    }
}

} // verus!
