//! The tables of wire names of the message sets that a contract combines:
//! whether they overlap, and which of them claims a name.

use crate::names::{ascending, common, disjoint, holds, insert};
use crate::wire::{DecodeError, Payload, Shape};
use crate::seqs::{first_where, lemma_first_where, lemma_first_where_is, lemma_first_where_none};
use vstd::prelude::*;

verus! {

/// Every table is in ascending order.
pub open spec fn all_ascending(tables: Seq<Seq<Seq<char>>>) -> bool {
    forall|a: int| 0 <= a < tables.len() ==> ascending(#[trigger] tables[a])
}

/// No two tables share a name.
pub open spec fn unambiguous(tables: Seq<Seq<Seq<char>>>) -> bool {
    forall|a: int, b: int|
        0 <= a < b < tables.len() ==> disjoint(#[trigger] tables[a], #[trigger] tables[b])
}

/// Two tables hold `name`.
pub open spec fn collides(tables: Seq<Seq<Seq<char>>>, name: Seq<char>) -> bool {
    exists|a: int, b: int|
        0 <= a < b < tables.len() && (#[trigger] tables[a]).contains(name) && (
        #[trigger] tables[b]).contains(name)
}

/// Some table holds `name`.
pub open spec fn known(tables: Seq<Seq<Seq<char>>>, name: Seq<char>) -> bool {
    exists|a: int| 0 <= a < tables.len() && (#[trigger] tables[a]).contains(name)
}

/// The first table that holds `name`.
pub open spec fn claimant(tables: Seq<Seq<Seq<char>>>, name: Seq<char>) -> Option<int> {
    first_where(tables, |table: Seq<Seq<char>>| table.contains(name))
}

/// Tables either share no name, or some name collides: never both.
pub proof fn lemma_unambiguous_or_collides(tables: Seq<Seq<Seq<char>>>)
    ensures
        unambiguous(tables) <==> !exists|name: Seq<char>| collides(tables, name),
{
    if !unambiguous(tables) {
        let (a, b) = choose|a: int, b: int|
            0 <= a < b < tables.len() && !disjoint(#[trigger] tables[a], #[trigger] tables[b]);
        let (i, j) = choose|i: int, j: int|
            0 <= i < tables[a].len() && 0 <= j < tables[b].len() && !(#[trigger] tables[a][i]
                != #[trigger] tables[b][j]);
        assert(tables[a].contains(tables[a][i]));
        assert(tables[b].contains(tables[a][i]));
        assert(collides(tables, tables[a][i]));
    }
    if exists|name: Seq<char>| collides(tables, name) {
        let name = choose|name: Seq<char>| collides(tables, name);
        let (a, b) = choose|a: int, b: int|
            0 <= a < b < tables.len() && (#[trigger] tables[a]).contains(name) && (
            #[trigger] tables[b]).contains(name);
        let i = choose|i: int| 0 <= i < tables[a].len() && tables[a][i] == name;
        let j = choose|j: int| 0 <= j < tables[b].len() && tables[b][j] == name;
        assert(!disjoint(tables[a], tables[b]));
    }
}

/// Looks for a name that two tables share: each table is held against each
/// later one. Gives the name where there is one.
pub fn intersection(msgs: &Vec<Vec<String>>) -> (shared: Option<String>)
    requires
        all_ascending(msgs.deep_view()),
    ensures
        shared is None <==> unambiguous(msgs.deep_view()),
        shared matches Some(name) ==> collides(msgs.deep_view(), name@),
{
    let ghost tables = msgs.deep_view();
    proof {
        lemma_unambiguous_or_collides(tables);
    }
    let mut i: usize = 0;
    while i < msgs.len()
        invariant
            i <= msgs.len(),
            tables == msgs.deep_view(),
            all_ascending(tables),
            forall|a: int, b: int|
                0 <= a < b < tables.len() && a < i ==> disjoint(#[trigger] tables[a], #[trigger] tables[b]),
        decreases msgs.len() - i,
    {
        let mut j: usize = i + 1;
        while j < msgs.len()
            invariant
                i < j <= msgs.len(),
                tables == msgs.deep_view(),
                all_ascending(tables),
                forall|a: int, b: int|
                    0 <= a < b < tables.len() && a < i ==> disjoint(
                        #[trigger] tables[a],
                        #[trigger] tables[b],
                    ),
                forall|b: int| i < b < j ==> disjoint(tables[i as int], #[trigger] tables[b]),
            decreases msgs.len() - j,
        {
            assert(tables[i as int] == msgs@[i as int].deep_view());
            assert(tables[j as int] == msgs@[j as int].deep_view());
            match common(&msgs[i], &msgs[j]) {
                Some(at) => {
                    let name = msgs[i][at].clone();
                    proof {
                        assert(tables[i as int][at as int] == name@);
                        assert(tables[i as int].contains(name@));
                        assert(tables[j as int].contains(name@));
                    }
                    return Some(name);
                },
                None => {},
            }
            j += 1;
        }
        i += 1;
    }
    None
}

/// Finds the first table that holds `name`: the tables are tried in order.
pub fn claim(msgs: &Vec<Vec<String>>, name: &String) -> (arm: Option<usize>)
    ensures
        match arm {
            Some(a) => claimant(msgs.deep_view(), name@) == Some(a as int),
            None => claimant(msgs.deep_view(), name@) is None,
        },
{
    let ghost tables = msgs.deep_view();
    let ghost holds_name = |table: Seq<Seq<char>>| table.contains(name@);
    let mut i: usize = 0;
    while i < msgs.len()
        invariant
            i <= msgs.len(),
            tables == msgs.deep_view(),
            holds_name == (|table: Seq<Seq<char>>| table.contains(name@)),
            forall|k: int| 0 <= k < i ==> !holds_name(#[trigger] tables[k]),
        decreases msgs.len() - i,
    {
        assert(tables[i as int] == msgs@[i as int].deep_view());
        if holds(&msgs[i], name) {
            proof {
                lemma_first_where_is(tables, holds_name, i as int);
            }
            return Some(i);
        }
        i += 1;
    }
    proof {
        lemma_first_where_none(tables, holds_name);
    }
    None
}

/// The claimant of a name is the first table that holds it: no table before
/// it does.
pub proof fn lemma_claimant_is_first(tables: Seq<Seq<Seq<char>>>, name: Seq<char>)
    ensures
        match claimant(tables, name) {
            Some(arm) => 0 <= arm < tables.len() && tables[arm].contains(name) && forall|k: int|
                0 <= k < arm ==> !(#[trigger] tables[k]).contains(name),
            None => !known(tables, name),
        },
{
    lemma_first_where(tables, |table: Seq<Seq<char>>| table.contains(name));
}

/// Whether `outcome` is what the tables make of `payload`. A payload that is
/// no map is of the wrong format. A map must have exactly one key, else the
/// error gives the number of keys. The key is the wire name: the tables are
/// tried in order, and the first that holds the name gives the arm. A key
/// that is no text, or a name that no table holds, is unsupported: the error
/// gives the payload and lists the names of all tables, ascending, each once.
pub open spec fn decoded(
    tables: Seq<Seq<Seq<char>>>,
    payload: &Payload,
    outcome: Result<usize, DecodeError>,
) -> bool {
    match payload.shape {
        Shape::Other => outcome == Err::<usize, DecodeError>(DecodeError::WrongFormat),
        Shape::Object(keys) => if keys@.len() != 1 {
            outcome == Err::<usize, DecodeError>(DecodeError::KeyCount { found: keys.len() })
        } else {
            let found = match payload.name() {
                Some(name) => claimant(tables, name@),
                None => None,
            };
            match found {
                Some(arm) => outcome matches Ok(found) && found == arm,
                None => {
                    &&& outcome matches Err(DecodeError::Unsupported { received, supported })
                    &&& received@ == payload.text@
                    &&& ascending(supported.deep_view())
                    &&& forall|name: Seq<char>|
                        supported.deep_view().contains(name) <==> known(tables, name)
                },
            }
        },
    }
}

/// Resolves a payload to the arm that its message belongs to, by the tables
/// of wire names of the arms. Any tables will do: nothing is asked of their
/// order.
pub fn decode(msgs: &Vec<Vec<String>>, payload: &Payload) -> (outcome: Result<usize, DecodeError>)
    ensures
        decoded(msgs.deep_view(), payload, outcome),
{
    let keys = match &payload.shape {
        Shape::Object(keys) => keys,
        Shape::Other => {
            return Err(DecodeError::WrongFormat);
        },
    };
    if keys.len() != 1 {
        return Err(DecodeError::KeyCount { found: keys.len() });
    }
    if let Some(recv_msg_name) = payload.name() {
        if let Some(arm) = claim(msgs, recv_msg_name) {
            return Ok(arm);
        }
    }
    Err(DecodeError::Unsupported { received: payload.text.clone(), supported: supported(msgs) })
}

/// Lists the names of all tables: in ascending order, each once.
pub fn supported(msgs: &Vec<Vec<String>>) -> (all: Vec<String>)
    ensures
        ascending(all.deep_view()),
        forall|name: Seq<char>| all.deep_view().contains(name) <==> known(msgs.deep_view(), name),
{
    let ghost tables = msgs.deep_view();
    let mut all: Vec<String> = Vec::new();
    let mut i: usize = 0;
    while i < msgs.len()
        invariant
            i <= msgs.len(),
            tables == msgs.deep_view(),
            ascending(all.deep_view()),
            forall|name: Seq<char>| all.deep_view().contains(name) <==> known(tables.take(i as int), name),
        decreases msgs.len() - i,
    {
        let ghost table = tables[i as int];
        let ghost before = all.deep_view();
        assert(table == msgs@[i as int].deep_view());
        let mut j: usize = 0;
        while j < msgs[i].len()
            invariant
                i < msgs.len(),
                j <= msgs@[i as int].len(),
                tables == msgs.deep_view(),
                table == tables[i as int],
                table == msgs@[i as int].deep_view(),
                ascending(all.deep_view()),
                forall|name: Seq<char>|
                    all.deep_view().contains(name) <==> (before.contains(name) || table.take(
                        j as int,
                    ).contains(name)),
            decreases msgs@[i as int].len() - j,
        {
            let ghost earlier = all.deep_view();
            let ghost done = table.take(j as int);
            assert(forall|other: Seq<char>|
                earlier.contains(other) <==> (before.contains(other) || done.contains(other)));
            let name = msgs[i][j].clone();
            insert(&mut all, name);
            proof {
                let next = table.take(j + 1);
                assert(table[j as int] == name@);
                assert(next =~= done.push(name@));
                assert forall|other: Seq<char>| all.deep_view().contains(other) <==> (before.contains(
                    other,
                ) || next.contains(other)) by {
                    assert(all.deep_view().contains(other) <==> (earlier.contains(other) || other
                        == name@));
                    assert(earlier.contains(other) <==> (before.contains(other) || done.contains(
                        other,
                    )));
                    if next.contains(other) {
                        let k = choose|k: int| 0 <= k < next.len() && next[k] == other;
                        if k < j {
                            assert(done[k] == other);
                        }
                    }
                    if done.contains(other) {
                        let k = choose|k: int| 0 <= k < done.len() && done[k] == other;
                        assert(next[k] == other);
                    }
                    if other == name@ {
                        assert(next[j as int] == other);
                    }
                }
            }
            j += 1;
        }
        proof {
            assert(table.take(j as int) =~= table);
            let done = tables.take(i as int);
            let next = tables.take(i + 1);
            assert forall|name: Seq<char>| all.deep_view().contains(name) <==> known(next, name) by {
                assert(all.deep_view().contains(name) <==> (before.contains(name) || table.contains(
                    name,
                )));
                assert(before.contains(name) <==> known(done, name));
                if known(next, name) {
                    let a = choose|a: int| 0 <= a < next.len() && (#[trigger] next[a]).contains(name);
                    if a < i {
                        assert(done[a].contains(name));
                    }
                }
                if known(done, name) {
                    let a = choose|a: int| 0 <= a < done.len() && (#[trigger] done[a]).contains(name);
                    assert(next[a].contains(name));
                }
                if table.contains(name) {
                    assert(next[i as int].contains(name));
                }
            }
        }
        i += 1;
    }
    proof {
        assert(tables.take(i as int) =~= tables);
    }
    all
}

} // verus!
