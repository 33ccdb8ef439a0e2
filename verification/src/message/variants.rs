//! The variants of an owner: how they are collected from its methods, how
//! their wire names are listed, and the querier that is made of its queries.

use crate::check_generics::{lemma_marked_concat, marked, CheckGenerics};
use crate::error::BuildError;
use crate::message::field::names_of;
use crate::message::variant::{
    leg_kind, refusal, Constructor, DispatchLeg, MsgVariant, Owner, QuerierDeclaration,
    QuerierMethod, VariantDecl,
};
use crate::names::{ascending, insert};
use crate::seqs::{first_where, lemma_first_where_is, lemma_first_where_none};
use crate::source::{find_msg, first_msg, GenericParam, Item, MsgAttr, MsgType};
use crate::text::{
    lemma_precedes_irreflexive, lemma_precedes_transitive, precedes, snake_case, upper_camel_case,
};
use crate::utils::{idents_of, parameters};
use crate::wire::Invocation;
use vstd::prelude::*;

verus! {

/// What the `msg` attribute of an item was read as; nothing for an item that
/// is no method or has no such attribute.
pub open spec fn attr_of(item: Item) -> Option<Result<MsgAttr, String>> {
    match item {
        Item::Method(method) => match first_msg(method.attrs@) {
            Some(i) => Some(method.attrs@[i]->Msg_0),
            None => None,
        },
        Item::Other => None,
    }
}

/// Whether an item is an operation of the wanted category, or of any where
/// none is wanted.
pub open spec fn takes(item: Item, filter: Option<MsgType>) -> bool {
    attr_of(item) matches Some(Ok(attr)) && (filter matches Some(ty) ==> attr.msg_type() == ty)
}

/// Why an item stops the collection, if it does: its attribute cannot be
/// read, or it is taken and no variant can be made of it.
pub open spec fn failure_of(item: Item, filter: Option<MsgType>) -> Option<BuildError> {
    match item {
        Item::Method(method) => match attr_of(item) {
            Some(Err(reason)) => Some(BuildError::Attribute { method: method.sig.ident, reason }),
            Some(Ok(attr)) => if takes(item, filter) {
                MsgVariant::failure(&method.sig, &attr)
            } else {
                None
            },
            None => None,
        },
        Item::Other => None,
    }
}

/// The first item that stops the collection.
pub open spec fn first_failing(items: Seq<Item>, filter: Option<MsgType>) -> Option<int> {
    first_where(items, |item: Item| failure_of(item, filter) is Some)
}

/// The places of the items that are taken, among the first `n`.
pub open spec fn chosen(items: Seq<Item>, filter: Option<MsgType>, n: int) -> Seq<int>
    decreases n,
{
    if n <= 0 {
        Seq::empty()
    } else if takes(items[n - 1], filter) {
        chosen(items, filter, n - 1).push(n - 1)
    } else {
        chosen(items, filter, n - 1)
    }
}

/// The places that `chosen` gives are places of taken items, in ascending
/// order.
pub proof fn lemma_chosen(items: Seq<Item>, filter: Option<MsgType>, n: int)
    requires
        0 <= n <= items.len(),
    ensures
        forall|k: int|
            0 <= k < chosen(items, filter, n).len() ==> 0 <= (#[trigger] chosen(items, filter, n)[k]) < n
                && takes(items[chosen(items, filter, n)[k]], filter),
        forall|a: int, b: int|
            0 <= a < b < chosen(items, filter, n).len() ==> (#[trigger] chosen(items, filter, n)[a]) < (
            #[trigger] chosen(items, filter, n)[b]),
    decreases n,
{
    if n > 0 {
        lemma_chosen(items, filter, n - 1);
        let before = chosen(items, filter, n - 1);
        let now = chosen(items, filter, n);
        assert forall|k: int| 0 <= k < now.len() implies 0 <= (#[trigger] now[k]) < n && takes(
            items[now[k]],
            filter,
        ) by {
            if k < before.len() {
                assert(now[k] == before[k]);
            }
        }
        assert forall|a: int, b: int| 0 <= a < b < now.len() implies (#[trigger] now[a]) < (
        #[trigger] now[b]) by {
            assert(now[a] == before[a]);
            if b < before.len() {
                assert(now[b] == before[b]);
            }
        }
    }
}

/// Every taken item among the first `n` has its place in what `chosen` gives.
pub proof fn lemma_chosen_complete(items: Seq<Item>, filter: Option<MsgType>, n: int, i: int)
    requires
        0 <= i < n <= items.len(),
        takes(items[i], filter),
    ensures
        chosen(items, filter, n).contains(i),
    decreases n,
{
    if i == n - 1 {
        let now = chosen(items, filter, n);
        assert(now[now.len() - 1] == i);
    } else {
        lemma_chosen_complete(items, filter, n - 1, i);
        let before = chosen(items, filter, n - 1);
        let now = chosen(items, filter, n);
        let k = choose|k: int| 0 <= k < before.len() && before[k] == i;
        assert(now[k] == i);
    }
}

/// The one-segment paths in the parameter types of the items that are taken,
/// among the first `n`.
pub open spec fn seen_idents(items: Seq<Item>, filter: Option<MsgType>, n: int) -> Seq<Seq<char>>
    decreases n,
{
    if n <= 0 {
        Seq::empty()
    } else if takes(items[n - 1], filter) {
        seen_idents(items, filter, n - 1) + idents_of(parameters(&items[n - 1]->Method_0.sig))
    } else {
        seen_idents(items, filter, n - 1)
    }
}

/// Whether `variant` is the variant of the operation that `item` declares.
pub open spec fn made_of(variant: MsgVariant, item: Item) -> bool {
    &&& item matches Item::Method(method)
    &&& attr_of(item) matches Some(Ok(attr))
    &&& variant.built_from(&method.sig, &attr)
}

/// Whether `variants` are the variants of the taken items, in their order.
pub open spec fn collected(variants: Seq<MsgVariant>, items: Seq<Item>, filter: Option<MsgType>) -> bool {
    let places = chosen(items, filter, items.len() as int);
    &&& variants.len() == places.len()
    &&& forall|k: int| 0 <= k < variants.len() ==> made_of(#[trigger] variants[k], items[places[k]])
}

/// Makes the variants of the methods that carry a `msg` attribute of the
/// wanted category, or of any category where none is wanted, in the order of
/// the items. The first item that cannot be read stops it.
pub fn collect_variants<'a>(
    items: &'a Vec<Item>,
    generics_checker: &mut CheckGenerics,
    filter: Option<MsgType>,
) -> (variants: Result<Vec<MsgVariant<'a>>, BuildError>)
    requires
        old(generics_checker).wf(),
    ensures
        final(generics_checker).wf(),
        final(generics_checker).generics() == old(generics_checker).generics(),
        match variants {
            Ok(variants) => {
                &&& first_failing(items@, filter) is None
                &&& collected(variants@, items@, filter)
                &&& final(generics_checker).marks() == marked(
                    old(generics_checker).generics(),
                    old(generics_checker).marks(),
                    seen_idents(items@, filter, items@.len() as int),
                )
            },
            Err(e) => {
                &&& first_failing(items@, filter) matches Some(i)
                &&& failure_of(items@[i], filter) == Some(e)
            },
        },
{
    let ghost fails = |item: Item| failure_of(item, filter) is Some;
    let mut variants: Vec<MsgVariant<'a>> = Vec::new();
    let mut i: usize = 0;
    while i < items.len()
        invariant
            i <= items.len(),
            fails == (|item: Item| failure_of(item, filter) is Some),
            generics_checker.wf(),
            generics_checker.generics() == old(generics_checker).generics(),
            generics_checker.marks() == marked(
                old(generics_checker).generics(),
                old(generics_checker).marks(),
                seen_idents(items@, filter, i as int),
            ),
            forall|k: int| 0 <= k < i ==> !fails(#[trigger] items@[k]),
            variants@.len() == chosen(items@, filter, i as int).len(),
            forall|k: int|
                0 <= k < variants@.len() ==> made_of(
                    #[trigger] variants@[k],
                    items@[chosen(items@, filter, i as int)[k]],
                ),
        decreases items.len() - i,
    {
        let ghost before = variants@;
        let ghost places = chosen(items@, filter, i as int);
        match &items[i] {
            Item::Method(method) => {
                match find_msg(&method.attrs) {
                    Some(Ok(attr)) => {
                        let wanted = match filter {
                            Some(ty) => attr.msg_type() == ty,
                            None => true,
                        };
                        if wanted {
                            match MsgVariant::new(&method.sig, generics_checker, attr) {
                                Ok(variant) => {
                                    proof {
                                        lemma_marked_concat(
                                            old(generics_checker).generics(),
                                            old(generics_checker).marks(),
                                            seen_idents(items@, filter, i as int),
                                            idents_of(parameters(&method.sig)),
                                        );
                                    }
                                    variants.push(variant);
                                    proof {
                                        let after = chosen(items@, filter, i + 1);
                                        assert(after == places.push(i as int));
                                        assert forall|k: int| 0 <= k < variants@.len() implies made_of(
                                            #[trigger] variants@[k],
                                            items@[after[k]],
                                        ) by {
                                            if k < before.len() {
                                                assert(variants@[k] == before[k]);
                                            }
                                        }
                                    }
                                },
                                Err(e) => {
                                    proof {
                                        lemma_first_where_is(items@, fails, i as int);
                                    }
                                    return Err(e);
                                },
                            }
                        }
                    },
                    Some(Err(reason)) => {
                        proof {
                            lemma_first_where_is(items@, fails, i as int);
                        }
                        return Err(
                            BuildError::Attribute {
                                method: method.sig.ident.clone(),
                                reason: reason.clone(),
                            },
                        );
                    },
                    None => {},
                }
            },
            Item::Other => {},
        }
        i += 1;
    }
    proof {
        lemma_first_where_none(items@, fails);
    }
    Ok(variants)
}

/// The wire names of variants, in the order of the variants.
pub open spec fn wires(variants: Seq<MsgVariant>) -> Seq<Seq<char>> {
    variants.map_values(|v: MsgVariant| v.wire())
}

/// The wire name of the operation that an item declares.
pub open spec fn wire_of(item: Item) -> Seq<char> {
    snake_case(upper_camel_case(item->Method_0.sig.ident@))
}

/// Whether two variants at different places have the wire name `name`.
pub open spec fn repeated(variants: Seq<MsgVariant>, name: Seq<char>) -> bool {
    exists|i: int, j: int|
        0 <= i < j < variants.len() && (#[trigger] variants[i]).wire() == name && (
        #[trigger] variants[j]).wire() == name
}

/// Whether two taken items declare operations with the wire name `name`.
pub open spec fn taken_twice(items: Seq<Item>, filter: Option<MsgType>, name: Seq<char>) -> bool {
    exists|i: int, j: int|
        0 <= i < j < items.len() && takes(#[trigger] items[i], filter) && takes(
            #[trigger] items[j],
            filter,
        ) && wire_of(items[i]) == name && wire_of(items[j]) == name
}

/// Two collected variants with one wire name come from two taken items with
/// that wire name.
pub proof fn lemma_repeated_taken(
    variants: Seq<MsgVariant>,
    items: Seq<Item>,
    filter: Option<MsgType>,
    name: Seq<char>,
)
    requires
        collected(variants, items, filter),
        repeated(variants, name),
    ensures
        taken_twice(items, filter, name),
{
    let places = chosen(items, filter, items.len() as int);
    lemma_chosen(items, filter, items.len() as int);
    let (i, j) = choose|i: int, j: int|
        0 <= i < j < variants.len() && (#[trigger] variants[i]).wire() == name && (
        #[trigger] variants[j]).wire() == name;
    assert(made_of(variants[i], items[places[i]]));
    assert(made_of(variants[j], items[places[j]]));
    assert(places[i] < places[j]);
    assert(takes(items[places[i]], filter));
    assert(takes(items[places[j]], filter));
}

/// Collected variants with different wire names come from taken items of
/// which no two have the same wire name.
pub proof fn lemma_distinct_taken(
    variants: Seq<MsgVariant>,
    items: Seq<Item>,
    filter: Option<MsgType>,
    name: Seq<char>,
)
    requires
        collected(variants, items, filter),
        wires(variants).no_duplicates(),
    ensures
        !taken_twice(items, filter, name),
{
    if taken_twice(items, filter, name) {
        let places = chosen(items, filter, items.len() as int);
        let (i, j) = choose|i: int, j: int|
            0 <= i < j < items.len() && takes(#[trigger] items[i], filter) && takes(
                #[trigger] items[j],
                filter,
            ) && wire_of(items[i]) == name && wire_of(items[j]) == name;
        lemma_chosen_complete(items, filter, items.len() as int, i);
        lemma_chosen_complete(items, filter, items.len() as int, j);
        let a = choose|a: int| 0 <= a < places.len() && places[a] == i;
        let b = choose|b: int| 0 <= b < places.len() && places[b] == j;
        assert(made_of(variants[a], items[places[a]]));
        assert(made_of(variants[b], items[places[b]]));
        assert(wires(variants)[a] == name);
        assert(wires(variants)[b] == name);
    }
}

/// Whether `list` lists the names `of`: in ascending order, each once, and
/// no other.
pub open spec fn lists(list: Seq<Seq<char>>, of: Seq<Seq<char>>) -> bool {
    &&& ascending(list)
    &&& forall|name: Seq<char>| list.contains(name) <==> of.contains(name)
}

/// A listing is as long as there are different names.
pub proof fn lemma_listing_len(list: Seq<Seq<char>>, of: Seq<Seq<char>>)
    requires
        lists(list, of),
    ensures
        list.no_duplicates(),
        list.len() == of.to_set().len(),
{
    assert forall|i: int, j: int| 0 <= i < list.len() && 0 <= j < list.len() && i != j implies list[i]
        != list[j] by {
        lemma_precedes_irreflexive(list[i]);
        if i < j {
            assert(precedes(list[i], list[j]));
        } else {
            assert(precedes(list[j], list[i]));
        }
    }
    list.unique_seq_to_set();
    assert(list.to_set() =~= of.to_set());
}

/// The names have but one listing.
pub proof fn lemma_listing_unique(a: Seq<Seq<char>>, b: Seq<Seq<char>>, of: Seq<Seq<char>>)
    requires
        lists(a, of),
        lists(b, of),
    ensures
        a == b,
    decreases a.len(),
{
    lemma_listing_len(a, of);
    lemma_listing_len(b, of);
    if a.len() > 0 {
        let x = a.last();
        let y = b.last();
        assert(a.contains(x));
        assert(b.contains(y));
        assert(b.contains(x));
        assert(a.contains(y));
        let i = choose|i: int| 0 <= i < b.len() && b[i] == x;
        let j = choose|j: int| 0 <= j < a.len() && a[j] == y;
        if x != y {
            // y stands before x in a, and x before y in b
            assert(precedes(a[j], a[a.len() - 1]));
            assert(precedes(b[i], b[b.len() - 1]));
            lemma_precedes_transitive(x, y, x);
            lemma_precedes_irreflexive(x);
        }
        let shorter = a.drop_last().to_set();
        assert forall|name: Seq<char>| a.drop_last().contains(name) <==> b.drop_last().contains(name) by {
            if a.drop_last().contains(name) {
                let k = choose|k: int| 0 <= k < a.len() - 1 && a.drop_last()[k] == name;
                assert(a[k] == name);
                assert(a.contains(name));
                assert(b.contains(name));
                let l = choose|l: int| 0 <= l < b.len() && b[l] == name;
                assert(name != x);
                assert(b.drop_last()[l] == name);
            }
            if b.drop_last().contains(name) {
                let k = choose|k: int| 0 <= k < b.len() - 1 && b.drop_last()[k] == name;
                assert(b[k] == name);
                assert(b.contains(name));
                assert(a.contains(name));
                let l = choose|l: int| 0 <= l < a.len() && a[l] == name;
                assert(name != y);
                assert(a.drop_last()[l] == name);
            }
        }
        assert(ascending(a.drop_last())) by {
            assert forall|p: int, q: int| 0 <= p < q < a.drop_last().len() implies precedes(
                #[trigger] a.drop_last()[p],
                #[trigger] a.drop_last()[q],
            ) by {
                assert(precedes(a[p], a[q]));
            }
        }
        assert(ascending(b.drop_last())) by {
            assert forall|p: int, q: int| 0 <= p < q < b.drop_last().len() implies precedes(
                #[trigger] b.drop_last()[p],
                #[trigger] b.drop_last()[q],
            ) by {
                assert(precedes(b[p], b[q]));
            }
        }
        lemma_listing_unique(a.drop_last(), b.drop_last(), a.drop_last());
        assert(a =~= a.drop_last().push(x));
        assert(b =~= b.drop_last().push(y));
    } else {
        assert(a =~= b);
    }
}

/// Lists the wire names of variants in ascending order, each once, and gives
/// a wire name that two variants share, if there is one.
pub fn survey(variants: &Vec<MsgVariant>) -> (found: (Vec<String>, Option<String>))
    ensures
        ascending(found.0.deep_view()),
        forall|name: Seq<char>| found.0.deep_view().contains(name) <==> wires(variants@).contains(name),
        found.1 is None <==> wires(variants@).no_duplicates(),
        found.1 is None ==> found.0.len() == variants.len(),
        found.1 matches Some(name) ==> repeated(variants@, name@),
{
    let ghost all = wires(variants@);
    let mut names: Vec<String> = Vec::new();
    let mut twice: Option<String> = None;
    let mut i: usize = 0;
    while i < variants.len()
        invariant
            i <= variants.len(),
            all == wires(variants@),
            ascending(names.deep_view()),
            forall|name: Seq<char>| names.deep_view().contains(name) <==> all.take(i as int).contains(name),
            twice is None <==> all.take(i as int).no_duplicates(),
            twice is None ==> names.len() == i,
            twice matches Some(name) ==> repeated(variants@, name@),
        decreases variants.len() - i,
    {
        let name = variants[i].wire_name();
        let fresh = insert(&mut names, name.clone());
        proof {
            let seen = all.take(i + 1);
            let earlier = all.take(i as int);
            assert(all[i as int] == variants@[i as int].wire());
            assert(seen =~= earlier.push(name@));
            assert forall|other: Seq<char>| names.deep_view().contains(other) <==> seen.contains(
                other,
            ) by {
                if seen.contains(other) {
                    let k = choose|k: int| 0 <= k < seen.len() && seen[k] == other;
                    if k < i {
                        assert(earlier[k] == other);
                    }
                }
                if earlier.contains(other) {
                    let k = choose|k: int| 0 <= k < i && earlier[k] == other;
                    assert(seen[k] == other);
                }
                if other == name@ {
                    assert(seen[i as int] == other);
                }
            }
            if fresh {
                if earlier.no_duplicates() {
                    assert forall|a: int, b: int|
                        0 <= a < seen.len() && 0 <= b < seen.len() && a != b implies seen[a] != seen[b] by {
                        if a == i {
                            assert(earlier[b] == seen[b]);
                        } else if b == i {
                            assert(earlier[a] == seen[a]);
                        } else {
                            assert(earlier[a] == seen[a]);
                            assert(earlier[b] == seen[b]);
                        }
                    }
                } else {
                    let (a, b) = choose|a: int, b: int|
                        0 <= a < earlier.len() && 0 <= b < earlier.len() && a != b && earlier[a]
                            == earlier[b];
                    assert(seen[a] == seen[b]);
                }
            } else {
                let k = choose|k: int| 0 <= k < i && earlier[k] == name@;
                assert(seen[k] == seen[i as int]);
                assert(variants@[k].wire() == name@);
            }
        }
        if !fresh && twice.is_none() {
            twice = Some(name);
        }
        i += 1;
    }
    proof {
        assert(all.take(i as int) =~= all);
    }
    (names, twice)
}

/// Lists the wire names of variants: in ascending order, each once.
pub fn messages_of(variants: &Vec<MsgVariant>) -> (names: Vec<String>)
    ensures
        lists(names.deep_view(), wires(variants@)),
        names.deep_view().no_duplicates(),
        names.len() == wires(variants@).to_set().len(),
        wires(variants@).no_duplicates() ==> names.len() == variants.len(),
{
    let (names, _) = survey(variants);
    proof {
        lemma_listing_len(names.deep_view(), wires(variants@));
    }
    names
}

/// An owner whose variants are the taken items of `items`, and whose
/// variants have different wire names.
pub open spec fn compiled(variants: Seq<MsgVariant>, items: Seq<Item>, filter: Option<MsgType>) -> bool {
    &&& first_failing(items, filter) is None
    &&& collected(variants, items, filter)
    &&& wires(variants).no_duplicates()
    &&& forall|name: Seq<char>| !taken_twice(items, filter, name)
}

/// What stops the compilation of an owner's message set with the error `e`:
/// the first item that cannot be read, or, where all can, a wire name that
/// two operations share.
pub open spec fn stopped(items: Seq<Item>, filter: Option<MsgType>, e: BuildError) -> bool {
    match first_failing(items, filter) {
        Some(i) => failure_of(items[i], filter) == Some(e),
        None => e matches BuildError::Duplicate { name } && taken_twice(items, filter, name@),
    }
}

/// Makes the variants of one category and checks that no two of them have
/// the same wire name.
pub fn compile_variants<'a>(
    items: &'a Vec<Item>,
    generics_checker: &mut CheckGenerics,
    ty: MsgType,
) -> (variants: Result<Vec<MsgVariant<'a>>, BuildError>)
    requires
        old(generics_checker).wf(),
    ensures
        final(generics_checker).wf(),
        final(generics_checker).generics() == old(generics_checker).generics(),
        match variants {
            Ok(variants) => {
                &&& compiled(variants@, items@, Some(ty))
                &&& final(generics_checker).marks() == marked(
                    old(generics_checker).generics(),
                    old(generics_checker).marks(),
                    seen_idents(items@, Some(ty), items@.len() as int),
                )
            },
            Err(e) => stopped(items@, Some(ty), e),
        },
{
    let variants = match collect_variants(items, generics_checker, Some(ty)) {
        Ok(variants) => variants,
        Err(e) => {
            return Err(e);
        },
    };
    let (_, twice) = survey(&variants);
    match twice {
        Some(name) => {
            proof {
                lemma_repeated_taken(variants@, items@, Some(ty), name@);
            }
            Err(BuildError::Duplicate { name })
        },
        None => {
            proof {
                assert forall|name: Seq<char>| !taken_twice(items@, Some(ty), name) by {
                    lemma_distinct_taken(variants@, items@, Some(ty), name);
                }
            }
            Ok(variants)
        },
    }
}

/// The place of the first variant with the given wire name.
pub open spec fn place_of(variants: Seq<MsgVariant>, name: Seq<char>) -> Option<int> {
    first_where(variants, |v: MsgVariant| v.wire() == name)
}

/// Finds the first variant with the given wire name.
pub fn find_variant(variants: &Vec<MsgVariant>, name: &String) -> (found: Option<usize>)
    ensures
        match found {
            Some(i) => place_of(variants@, name@) == Some(i as int),
            None => place_of(variants@, name@) is None,
        },
{
    let ghost named = |v: MsgVariant| v.wire() == name@;
    let mut i: usize = 0;
    while i < variants.len()
        invariant
            i <= variants.len(),
            named == (|v: MsgVariant| v.wire() == name@),
            forall|k: int| 0 <= k < i ==> !named(#[trigger] variants@[k]),
        decreases variants.len() - i,
    {
        if variants[i].wire_name() == *name {
            proof {
                lemma_first_where_is(variants@, named, i as int);
            }
            return Some(i);
        }
        i += 1;
    }
    proof {
        lemma_first_where_none(variants@, named);
    }
    None
}

/// The declarations of variants, in their order.
pub fn emit_variants<'a, 'b>(variants: &'b Vec<MsgVariant<'a>>) -> (decls: Vec<VariantDecl<'b>>)
    ensures
        decls@.len() == variants@.len(),
        forall|k: int| 0 <= k < decls@.len() ==> (#[trigger] decls@[k]).declares(variants@[k]),
{
    let mut decls: Vec<VariantDecl<'b>> = Vec::new();
    let mut i: usize = 0;
    while i < variants.len()
        invariant
            i <= variants.len(),
            decls@.len() == i,
            forall|k: int| 0 <= k < i ==> (#[trigger] decls@[k]).declares(variants@[k]),
        decreases variants.len() - i,
    {
        decls.push(variants[i].emit());
        i += 1;
    }
    decls
}

/// The constructors of variants, in their order.
pub fn emit_constructors<'a, 'b>(variants: &'b Vec<MsgVariant<'a>>) -> (constructors: Vec<
    Constructor<'b>,
>)
    ensures
        constructors@.len() == variants@.len(),
        forall|k: int|
            0 <= k < constructors@.len() ==> (#[trigger] constructors@[k]).constructs(variants@[k]),
{
    let mut constructors: Vec<Constructor<'b>> = Vec::new();
    let mut i: usize = 0;
    while i < variants.len()
        invariant
            i <= variants.len(),
            constructors@.len() == i,
            forall|k: int| 0 <= k < i ==> (#[trigger] constructors@[k]).constructs(variants@[k]),
        decreases variants.len() - i,
    {
        constructors.push(variants[i].emit_variants_constructors());
        i += 1;
    }
    constructors
}

/// Whether `legs` dispatch `variants`, leg by leg, for the category, in a
/// message set of the owner.
pub open spec fn dispatches(
    legs: Seq<DispatchLeg>,
    variants: Seq<MsgVariant>,
    owner: Owner,
    msg_ty: MsgType,
) -> bool {
    &&& legs.len() == variants.len()
    &&& forall|k: int|
        0 <= k < legs.len() ==> leg_kind(owner, msg_ty) is Some && (#[trigger] legs[k]).handles(
            variants[k],
            leg_kind(owner, msg_ty)->0,
        )
}

/// Whether a message set of the owner can dispatch the variants: either the
/// owner's sets dispatch the category, or there is nothing to dispatch.
pub open spec fn dispatchable(variants: Seq<MsgVariant>, owner: Owner, msg_ty: MsgType) -> bool {
    leg_kind(owner, msg_ty) is Some || variants.len() == 0
}

/// The dispatch legs of variants, in their order. A variant of a category
/// that cannot be dispatched is an error, which names the first variant.
pub fn emit_legs<'a, 'b>(variants: &'b Vec<MsgVariant<'a>>, owner: Owner, msg_ty: MsgType) -> (legs:
    Result<Vec<DispatchLeg<'b>>, BuildError>)
    ensures
        match legs {
            Ok(legs) => dispatchable(variants@, owner, msg_ty) && dispatches(
                legs@,
                variants@,
                owner,
                msg_ty,
            ),
            Err(e) => !dispatchable(variants@, owner, msg_ty) && e == refusal(
                owner,
                variants@[0].name,
            ),
        },
{
    let mut legs: Vec<DispatchLeg<'b>> = Vec::new();
    let mut i: usize = 0;
    while i < variants.len()
        invariant
            i <= variants.len(),
            legs@.len() == i,
            i > 0 ==> leg_kind(owner, msg_ty) is Some,
            forall|k: int|
                0 <= k < i ==> (#[trigger] legs@[k]).handles(variants@[k], leg_kind(owner, msg_ty)->0),
        decreases variants.len() - i,
    {
        match variants[i].emit_leg(owner, msg_ty) {
            Ok(leg) => {
                legs.push(leg);
            },
            Err(e) => {
                return Err(e);
            },
        }
        i += 1;
    }
    Ok(legs)
}

/// Whether `call` is the call that a message set makes for `variant`: the
/// handler is the method that the variant was made of, it gets the variant's
/// fields in order, and the context and the response pass as they are.
pub open spec fn calls(call: Invocation, variant: MsgVariant, owner: Owner, msg_ty: MsgType) -> bool {
    &&& call.function_name == variant.function_name
    &&& call.fields@ == names_of(variant.fields@)
    &&& !call.narrow_ctx
    &&& !call.into_response
    &&& Some(call.kind) == leg_kind(owner, msg_ty)
}

/// The call that a message set of the owner makes, for the category, for the
/// variant at the given place: the dispatch goes by the variant alone, to its leg. Nothing
/// where there is no such variant, or where the category is not dispatched.
pub fn dispatch_variant<'a, 'b>(
    variants: &'b Vec<MsgVariant<'a>>,
    owner: Owner,
    msg_ty: MsgType,
    variant: usize,
) -> (call: Option<Invocation<'b>>)
    ensures
        match call {
            Some(call) => variant < variants@.len() && leg_kind(owner, msg_ty) is Some && calls(
                call,
                variants@[variant as int],
                owner,
                msg_ty,
            ),
            None => !(variant < variants@.len() && leg_kind(owner, msg_ty) is Some),
        },
{
    if variant >= variants.len() {
        return None;
    }
    match variants[variant].emit_leg(owner, msg_ty) {
        Ok(leg) => Some(
            Invocation {
                function_name: leg.function_name,
                fields: leg.fields,
                narrow_ctx: false,
                into_response: false,
                kind: leg.kind,
            },
        ),
        Err(_) => None,
    }
}

/// The places of the queries among the first `n` variants.
pub open spec fn queries(variants: Seq<MsgVariant>, n: int) -> Seq<int>
    decreases n,
{
    if n <= 0 {
        Seq::empty()
    } else if variants[n - 1].msg_type == MsgType::Query {
        queries(variants, n - 1).push(n - 1)
    } else {
        queries(variants, n - 1)
    }
}

/// All the operations of an owner, of every category.
#[derive(Debug)]
pub struct MsgVariants<'a>(pub Vec<MsgVariant<'a>>);

/// The querier of an owner: the trait `Querier` with one method for each
/// query, and its impl for the `BoundQuerier`, which holds the address of a
/// contract and the means to query it.
#[derive(Debug)]
pub struct QuerierDecl<'a> {
    pub methods_impl: Vec<QuerierMethod<'a>>,
    pub methods_declaration: Vec<QuerierDeclaration<'a>>,
}

/// The impl of an interface's `Querier` for the `BoundQuerier` of a contract.
#[derive(Debug)]
pub struct BoundQuerierImpl<'a> {
    /// The module of the trait `Querier`; none when it is in scope.
    pub querier_module: Option<&'a String>,
    /// The module of the `BoundQuerier`; none when it is in scope.
    pub bound_querier_module: Option<&'a String>,
    pub methods_impl: Vec<QuerierMethod<'a>>,
}

impl<'a> MsgVariants<'a> {
    /// Makes the variants of all the operations among `source`.
    pub fn new(source: &'a Vec<Item>, generics: &Vec<GenericParam>) -> (variants: Result<
        MsgVariants<'a>,
        BuildError,
    >)
        ensures
            match variants {
                Ok(variants) => first_failing(source@, None) is None && collected(
                    variants.0@,
                    source@,
                    None,
                ),
                Err(e) => {
                    &&& first_failing(source@, None) matches Some(i)
                    &&& failure_of(source@[i], None) == Some(e)
                },
            },
    {
        let mut generics_checker = CheckGenerics::new(generics);
        match collect_variants(source, &mut generics_checker, None) {
            Ok(variants) => Ok(MsgVariants(variants)),
            Err(e) => Err(e),
        }
    }

    /// The methods that send the queries among the variants, in their order.
    fn querier_methods<'b>(&'b self, trait_module: Option<&'b String>) -> (methods: Vec<
        QuerierMethod<'b>,
    >)
        ensures
            methods@.len() == queries(self.0@, self.0@.len() as int).len(),
            forall|k: int|
                0 <= k < methods@.len() ==> (#[trigger] methods@[k]).sends(
                    self.0@[queries(self.0@, self.0@.len() as int)[k]],
                    trait_module,
                ),
    {
        let mut methods: Vec<QuerierMethod<'b>> = Vec::new();
        let mut i: usize = 0;
        while i < self.0.len()
            invariant
                i <= self.0.len(),
                methods@.len() == queries(self.0@, i as int).len(),
                forall|k: int|
                    0 <= k < methods@.len() ==> (#[trigger] methods@[k]).sends(
                        self.0@[queries(self.0@, i as int)[k]],
                        trait_module,
                    ),
            decreases self.0.len() - i,
        {
            if self.0[i].msg_type == MsgType::Query {
                let ghost before = methods@;
                methods.push(self.0[i].emit_querier_impl(trait_module));
                proof {
                    let after = queries(self.0@, i + 1);
                    assert forall|k: int| 0 <= k < methods@.len() implies (#[trigger] methods@[k]).sends(
                        self.0@[after[k]],
                        trait_module,
                    ) by {
                        if k < before.len() {
                            assert(methods@[k] == before[k]);
                        }
                    }
                }
            }
            i += 1;
        }
        methods
    }

    /// The querier of the owner: a method and its declaration for each query,
    /// in the order of the variants.
    pub fn emit_querier<'b>(&'b self) -> (querier: QuerierDecl<'b>)
        ensures
            querier.methods_impl@.len() == queries(self.0@, self.0@.len() as int).len(),
            querier.methods_declaration@.len() == queries(self.0@, self.0@.len() as int).len(),
            forall|k: int|
                0 <= k < querier.methods_impl@.len() ==> (#[trigger] querier.methods_impl@[k]).sends(
                    self.0@[queries(self.0@, self.0@.len() as int)[k]],
                    None,
                ),
            forall|k: int|
                0 <= k < querier.methods_declaration@.len()
                    ==> (#[trigger] querier.methods_declaration@[k]).declares(
                    self.0@[queries(self.0@, self.0@.len() as int)[k]],
                ),
    {
        let methods_impl = self.querier_methods(None);
        let mut methods_declaration: Vec<QuerierDeclaration<'b>> = Vec::new();
        let mut i: usize = 0;
        while i < self.0.len()
            invariant
                i <= self.0.len(),
                methods_declaration@.len() == queries(self.0@, i as int).len(),
                forall|k: int|
                    0 <= k < methods_declaration@.len() ==> (#[trigger] methods_declaration@[k]).declares(
                        self.0@[queries(self.0@, i as int)[k]],
                    ),
            decreases self.0.len() - i,
        {
            if self.0[i].msg_type == MsgType::Query {
                let ghost before = methods_declaration@;
                methods_declaration.push(self.0[i].emit_querier_declaration());
                proof {
                    let after = queries(self.0@, i + 1);
                    assert forall|k: int| 0 <= k < methods_declaration@.len() implies (
                    #[trigger] methods_declaration@[k]).declares(self.0@[after[k]]) by {
                        if k < before.len() {
                            assert(methods_declaration@[k] == before[k]);
                        }
                    }
                }
            }
            i += 1;
        }
        QuerierDecl { methods_impl, methods_declaration }
    }

    /// The impl of an interface's querier for the bound querier of a
    /// contract: a method for each query, which builds the query under the
    /// interface's module.
    pub fn emit_querier_for_bound_impl<'b>(
        &'b self,
        trait_module: Option<&'b String>,
        contract_module: Option<&'b String>,
    ) -> (bound: BoundQuerierImpl<'b>)
        ensures
            bound.querier_module == trait_module,
            bound.bound_querier_module == contract_module,
            bound.methods_impl@.len() == queries(self.0@, self.0@.len() as int).len(),
            forall|k: int|
                0 <= k < bound.methods_impl@.len() ==> (#[trigger] bound.methods_impl@[k]).sends(
                    self.0@[queries(self.0@, self.0@.len() as int)[k]],
                    trait_module,
                ),
    {
        BoundQuerierImpl {
            querier_module: trait_module,
            bound_querier_module: contract_module,
            methods_impl: self.querier_methods(trait_module),
        }
    }
}

} // verus!
