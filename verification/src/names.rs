//! Lists of names kept in ascending order without repetition: the form in
//! which a message set lists its wire names.

use crate::text::{
    lemma_precedes_irreflexive, lemma_precedes_total, lemma_precedes_transitive, less, precedes,
};
use vstd::prelude::*;

verus! {

/// Each name strictly precedes every later one: the list is sorted and holds
/// no name twice.
pub open spec fn ascending(names: Seq<Seq<char>>) -> bool {
    forall|i: int, j: int|
        0 <= i < j < names.len() ==> precedes(#[trigger] names[i], #[trigger] names[j])
}

/// Two lists share no name.
pub open spec fn disjoint(a: Seq<Seq<char>>, b: Seq<Seq<char>>) -> bool {
    forall|i: int, j: int| 0 <= i < a.len() && 0 <= j < b.len() ==> #[trigger] a[i] != #[trigger] b[j]
}

/// The number of names of an ascending list that precede `name`: the place
/// where `name` stands, or would stand.
pub open spec fn rank(names: Seq<Seq<char>>, name: Seq<char>) -> int
    decreases names.len(),
{
    if names.len() == 0 {
        0
    } else if precedes(names.last(), name) {
        names.len() as int
    } else {
        rank(names.drop_last(), name)
    }
}

/// In an ascending list exactly the names before the rank of `name` precede it.
pub proof fn lemma_rank(names: Seq<Seq<char>>, name: Seq<char>)
    requires
        ascending(names),
    ensures
        0 <= rank(names, name) <= names.len(),
        forall|i: int| 0 <= i < rank(names, name) ==> precedes(#[trigger] names[i], name),
        forall|i: int| rank(names, name) <= i < names.len() ==> !precedes(#[trigger] names[i], name),
        names.contains(name) <==> (rank(names, name) < names.len() && names[rank(names, name)] == name),
    decreases names.len(),
{
    if names.len() == 0 {
    } else if precedes(names.last(), name) {
        assert forall|i: int| 0 <= i < names.len() implies precedes(#[trigger] names[i], name) by {
            if i < names.len() - 1 {
                lemma_precedes_transitive(names[i], names.last(), name);
            }
        }
        if names.contains(name) {
            let k = choose|k: int| 0 <= k < names.len() && names[k] == name;
            lemma_precedes_irreflexive(name);
        }
    } else {
        let shorter = names.drop_last();
        lemma_rank(shorter, name);
        let r = rank(shorter, name);
        assert forall|i: int| 0 <= i < r implies precedes(#[trigger] names[i], name) by {
            assert(shorter[i] == names[i]);
        }
        assert forall|i: int| r <= i < names.len() implies !precedes(#[trigger] names[i], name) by {
            if i < names.len() - 1 {
                assert(shorter[i] == names[i]);
            }
        }
        if names.contains(name) {
            let k = choose|k: int| 0 <= k < names.len() && names[k] == name;
            if k < r {
                lemma_precedes_irreflexive(name);
            } else if k > r {
                lemma_precedes_irreflexive(name);
                assert(precedes(names[r], names[k]));
            }
        }
    }
}

/// The place of `name` in an ascending list, by bisection.
pub fn search(names: &Vec<String>, name: &String) -> (at: usize)
    requires
        ascending(names.deep_view()),
    ensures
        at == rank(names.deep_view(), name@),
{
    let ghost all = names.deep_view();
    proof {
        lemma_rank(all, name@);
    }
    let mut lo: usize = 0;
    let mut hi: usize = names.len();
    while lo < hi
        invariant
            all == names.deep_view(),
            ascending(all),
            lo <= hi <= names.len(),
            forall|i: int| 0 <= i < lo ==> precedes(#[trigger] all[i], name@),
            forall|i: int| hi <= i < all.len() ==> !precedes(#[trigger] all[i], name@),
        decreases hi - lo,
    {
        let mid: usize = lo + (hi - lo) / 2;
        assert(all[mid as int] == names@[mid as int]@);
        if less(names[mid].as_str(), name.as_str()) {
            proof {
                assert forall|i: int| 0 <= i < mid + 1 implies precedes(#[trigger] all[i], name@) by {
                    if i < mid {
                        lemma_precedes_transitive(all[i], all[mid as int], name@);
                    }
                }
            }
            lo = mid + 1;
        } else {
            proof {
                assert forall|i: int| mid <= i < all.len() implies !precedes(#[trigger] all[i], name@) by {
                    if i > mid && precedes(all[i], name@) {
                        lemma_precedes_transitive(all[mid as int], all[i], name@);
                    }
                }
            }
            hi = mid;
        }
    }
    proof {
        let r = rank(all, name@);
        if lo < r {
            assert(precedes(all[lo as int], name@));
        }
        if r < lo {
            assert(precedes(all[r], name@));
        }
    }
    lo
}

/// Whether a list holds `name`. The list is gone through from its start, so
/// it need not be in any order.
pub fn holds(names: &Vec<String>, name: &String) -> (found: bool)
    ensures
        found == names.deep_view().contains(name@),
{
    let ghost all = names.deep_view();
    let mut i: usize = 0;
    while i < names.len()
        invariant
            i <= names.len(),
            all == names.deep_view(),
            forall|k: int| 0 <= k < i ==> #[trigger] all[k] != name@,
        decreases names.len() - i,
    {
        assert(all[i as int] == names@[i as int]@);
        if names[i] == *name {
            return true;
        }
        i += 1;
    }
    false
}

/// Puts `name` into an ascending list at its place, unless the list holds it
/// already. Says whether the name was new.
pub fn insert(names: &mut Vec<String>, name: String) -> (fresh: bool)
    requires
        ascending(old(names).deep_view()),
    ensures
        ascending(final(names).deep_view()),
        fresh == !old(names).deep_view().contains(name@),
        fresh ==> final(names).deep_view() == old(names).deep_view().insert(
            rank(old(names).deep_view(), name@),
            name@,
        ),
        !fresh ==> final(names).deep_view() == old(names).deep_view(),
        final(names).len() == old(names).len() + if fresh {
            1int
        } else {
            0int
        },
        forall|other: Seq<char>|
            final(names).deep_view().contains(other) <==> (old(names).deep_view().contains(other)
                || other == name@),
{
    let ghost before = names.deep_view();
    let at: usize = search(names, &name);
    proof {
        lemma_rank(before, name@);
        if at < names.len() {
            assert(before[at as int] == names@[at as int]@);
        }
    }
    if at < names.len() && names[at] == name {
        assert(before.contains(name@));
        false
    } else {
        names.insert(at, name);
        proof {
            let after = names.deep_view();
            assert(after =~= before.insert(at as int, name@));
            assert forall|i: int, j: int| 0 <= i < j < after.len() implies precedes(
                #[trigger] after[i],
                #[trigger] after[j],
            ) by {
                let a = if i < at { before[i] } else if i == at { name@ } else { before[i - 1] };
                let b = if j < at { before[j] } else if j == at { name@ } else { before[j - 1] };
                assert(after[i] == a);
                assert(after[j] == b);
                if j == at {
                } else if i == at {
                    lemma_precedes_total(before[j - 1], name@);
                } else {
                }
            }
            assert forall|other: Seq<char>| after.contains(other) <==> (before.contains(other)
                || other == name@) by {
                if after.contains(other) {
                    let k = choose|k: int| 0 <= k < after.len() && after[k] == other;
                    if k < at {
                        assert(before[k] == other);
                    } else if k > at {
                        assert(before[k - 1] == other);
                    }
                }
                if before.contains(other) {
                    let k = choose|k: int| 0 <= k < before.len() && before[k] == other;
                    if k < at {
                        assert(after[k] == other);
                    } else {
                        assert(after[k + 1] == other);
                    }
                }
                if other == name@ {
                    assert(after[at as int] == other);
                }
            }
        }
        true
    }
}

/// The first name of `a` that `b` holds too, found in one pass over both
/// lists; `None` when they share no name.
pub fn common(a: &Vec<String>, b: &Vec<String>) -> (hit: Option<usize>)
    requires
        ascending(a.deep_view()),
        ascending(b.deep_view()),
    ensures
        match hit {
            Some(i) => i < a.len() && b.deep_view().contains(a.deep_view()[i as int])
                && forall|k: int| 0 <= k < i ==> !b.deep_view().contains(#[trigger] a.deep_view()[k]),
            None => disjoint(a.deep_view(), b.deep_view()),
        },
{
    let ghost x = a.deep_view();
    let ghost y = b.deep_view();
    let mut i: usize = 0;
    let mut j: usize = 0;
    while i < a.len() && j < b.len()
        invariant
            x == a.deep_view(),
            y == b.deep_view(),
            ascending(x),
            ascending(y),
            i <= a.len(),
            j <= b.len(),
            forall|k: int, l: int| 0 <= k < i && 0 <= l < y.len() ==> #[trigger] x[k] != #[trigger] y[l],
            forall|k: int, l: int| i <= k < x.len() && 0 <= l < j ==> #[trigger] x[k] != #[trigger] y[l],
        decreases a.len() - i + b.len() - j,
    {
        assert(x[i as int] == a@[i as int]@);
        assert(y[j as int] == b@[j as int]@);
        if less(a[i].as_str(), b[j].as_str()) {
            proof {
                assert forall|l: int| 0 <= l < y.len() implies x[i as int] != #[trigger] y[l] by {
                    if l >= j {
                        if l > j {
                            lemma_precedes_transitive(x[i as int], y[j as int], y[l]);
                        }
                        lemma_precedes_irreflexive(x[i as int]);
                    }
                }
            }
            i += 1;
        } else if less(b[j].as_str(), a[i].as_str()) {
            proof {
                assert forall|k: int| i <= k < x.len() implies #[trigger] x[k] != y[j as int] by {
                    if k > i {
                        lemma_precedes_transitive(y[j as int], x[i as int], x[k]);
                    }
                    lemma_precedes_irreflexive(y[j as int]);
                }
            }
            j += 1;
        } else {
            proof {
                lemma_precedes_total(x[i as int], y[j as int]);
                assert forall|k: int| 0 <= k < i implies !y.contains(#[trigger] x[k]) by {
                    if y.contains(x[k]) {
                        let l = choose|l: int| 0 <= l < y.len() && y[l] == x[k];
                        assert(x[k] != y[l]);
                    }
                }
            }
            return Some(i);
        }
    }
    None
}

} // verus!
