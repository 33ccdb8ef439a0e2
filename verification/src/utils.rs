//! Reading a method's signature: its message parameters and its response;
//! and which predicates of a `where` clause a generated type keeps.

use crate::check_generics::{lemma_marked_concat, marked, params_at, CheckGenerics};
use crate::error::BuildError;
use crate::message::field::MsgField;
use crate::seqs::{first_where, lemma_first_where_is, lemma_first_where_none};
use crate::source::{FnArg, GenericParam, ReturnType, Signature, WherePredicate};
use crate::text::text;
use vstd::prelude::*;

verus! {

/// The parameters of a method that become fields of its message: all but the
/// first two, which are the receiver and the context.
pub open spec fn parameters(sig: &Signature) -> Seq<FnArg> {
    if sig.inputs@.len() <= 2 {
        Seq::empty()
    } else {
        sig.inputs@.skip(2)
    }
}

/// The field that a parameter declares: a typed parameter with a plain name
/// declares one.
pub open spec fn field_of<'a>(arg: FnArg) -> Option<MsgField<'a>> {
    match arg {
        FnArg::Typed(item) => MsgField::of(&item),
        FnArg::Receiver => None,
    }
}

/// The place of the first message parameter that declares no field.
pub open spec fn first_bad(sig: &Signature) -> Option<int> {
    first_where(parameters(sig), |arg: FnArg| field_of(arg) is None)
}

/// The fields of a method's message, in the order of its parameters.
pub open spec fn fields_of<'a>(sig: &Signature) -> Seq<MsgField<'a>> {
    parameters(sig).map_values(|arg: FnArg| field_of(arg)->0)
}

/// The one-segment paths in the type of a parameter.
pub open spec fn arg_idents(arg: FnArg) -> Seq<Seq<char>> {
    match arg {
        FnArg::Typed(item) => item.ty.idents.deep_view(),
        FnArg::Receiver => Seq::empty(),
    }
}

/// The one-segment paths in the types of a run of parameters, in order.
pub open spec fn idents_of(args: Seq<FnArg>) -> Seq<Seq<char>>
    decreases args.len(),
{
    if args.len() == 0 {
        Seq::empty()
    } else {
        idents_of(args.drop_last()) + arg_idents(args.last())
    }
}

/// Makes the fields of a method's message and marks the generic parameters
/// that their types mention. A parameter that is `self` or a pattern is an
/// error, which names the first such parameter.
pub fn process_fields<'s>(sig: &'s Signature, generics_checker: &mut CheckGenerics) -> (fields:
    Result<Vec<MsgField<'s>>, BuildError>)
    requires
        old(generics_checker).wf(),
    ensures
        final(generics_checker).wf(),
        final(generics_checker).generics() == old(generics_checker).generics(),
        match fields {
            Ok(fields) => {
                &&& first_bad(sig) is None
                &&& fields@ == fields_of(sig)
                &&& final(generics_checker).marks() == marked(
                    old(generics_checker).generics(),
                    old(generics_checker).marks(),
                    idents_of(parameters(sig)),
                )
            },
            Err(e) => {
                &&& first_bad(sig) matches Some(p)
                &&& e == (BuildError::Parameter { method: sig.ident, position: p as usize })
            },
        },
{
    let ghost params = parameters(sig);
    let ghost bad = |arg: FnArg| field_of(arg) is None;
    let mut fields: Vec<MsgField<'s>> = Vec::new();
    let mut i: usize = 2;
    if sig.inputs.len() <= 2 {
        proof {
            lemma_first_where_none(params, bad);
            assert(fields@ =~= fields_of(sig));
        }
        return Ok(fields);
    }
    while i < sig.inputs.len()
        invariant
            2 <= i <= sig.inputs@.len(),
            params == parameters(sig),
            params == sig.inputs@.skip(2),
            bad == (|arg: FnArg| field_of(arg) is None),
            generics_checker.wf(),
            generics_checker.generics() == old(generics_checker).generics(),
            generics_checker.marks() == marked(
                old(generics_checker).generics(),
                old(generics_checker).marks(),
                idents_of(params.take(i - 2)),
            ),
            fields@.len() == i - 2,
            forall|k: int| 0 <= k < i - 2 ==> !bad(#[trigger] params[k]),
            forall|k: int| 0 <= k < i - 2 ==> #[trigger] fields@[k] == field_of(params[k])->0,
        decreases sig.inputs@.len() - i,
    {
        assert(params[i - 2] == sig.inputs@[i as int]);
        let ghost before = generics_checker.marks();
        let field = match &sig.inputs[i] {
            FnArg::Typed(item) => MsgField::new(item, generics_checker),
            FnArg::Receiver => None,
        };
        match field {
            Some(field) => {
                proof {
                    let seen = params.take(i - 1);
                    assert(seen.drop_last() =~= params.take(i - 2));
                    assert(seen.last() == params[i - 2]);
                    lemma_marked_concat(
                        old(generics_checker).generics(),
                        old(generics_checker).marks(),
                        idents_of(params.take(i - 2)),
                        arg_idents(params[i - 2]),
                    );
                }
                fields.push(field);
            },
            None => {
                proof {
                    lemma_first_where_is(params, bad, i - 2);
                }
                return Err(BuildError::Parameter { method: sig.ident.clone(), position: i - 2 });
            },
        }
        i += 1;
    }
    proof {
        lemma_first_where_none(params, bad);
        assert(params.take(i - 2) =~= params);
        assert(fields@ =~= fields_of(sig));
    }
    Ok(fields)
}

/// The response type that a declared result gives: the first argument of a
/// `Result` or an `StdResult`.
pub open spec fn response_in<'a>(output: &'a ReturnType) -> Option<&'a String> {
    match output {
        ReturnType::Type(ty) => if ty.outer@ == "Result"@ || ty.outer@ == "StdResult"@ {
            match ty.inner {
                Some(inner) => Some(&inner),
                None => None,
            }
        } else {
            None
        },
        ReturnType::Default => None,
    }
}

/// Reads the response type off a declared result.
pub fn extract_return_type<'a>(output: &'a ReturnType) -> (response: Option<&'a String>)
    ensures
        response == response_in(output),
{
    match output {
        ReturnType::Type(ty) => {
            if ty.outer == text("Result") || ty.outer == text("StdResult") {
                ty.inner.as_ref()
            } else {
                None
            }
        },
        ReturnType::Default => None,
    }
}

/// Whether a parameter of that name is among `used`.
pub open spec fn named_in(used: Seq<&GenericParam>, name: Seq<char>) -> bool {
    exists|i: int| 0 <= i < used.len() && (#[trigger] used[i]).name@ == name
}

/// The type parameters that a predicate speaks of, by their places.
pub open spec fn mentioned(predicate: WherePredicate, generics: Seq<GenericParam>) -> Seq<usize> {
    marked(generics, Seq::empty(), predicate.idents.deep_view())
}

/// Whether every type parameter that a predicate speaks of is, by its name,
/// among `used`.
pub open spec fn speaks_of_used(
    predicate: WherePredicate,
    generics: Seq<GenericParam>,
    used: Seq<&GenericParam>,
) -> bool {
    forall|k: int|
        0 <= k < mentioned(predicate, generics).len() ==> named_in(
            used,
            generics[(#[trigger] mentioned(predicate, generics)[k]) as int].name@,
        )
}

/// The first `n` predicates of a clause that speak of used parameters alone.
pub open spec fn kept<'a>(
    predicates: Seq<WherePredicate>,
    generics: Seq<GenericParam>,
    used: Seq<&GenericParam>,
    n: int,
) -> Seq<&'a WherePredicate>
    decreases n,
{
    if n <= 0 {
        Seq::empty()
    } else if speaks_of_used(predicates[n - 1], generics, used) {
        kept(predicates, generics, used, n - 1).push(&predicates[n - 1])
    } else {
        kept(predicates, generics, used, n - 1)
    }
}

/// The predicates of a `where` clause that speak of used parameters alone.
pub open spec fn wheres_of<'a>(
    clause: Option<Vec<WherePredicate>>,
    generics: Seq<GenericParam>,
    used: Seq<&GenericParam>,
) -> Seq<&'a WherePredicate> {
    match clause {
        Some(predicates) => kept(predicates@, generics, used, predicates@.len() as int),
        None => Seq::empty(),
    }
}

/// Whether a parameter of that name is among `used`.
fn is_named_in(used: &Vec<&GenericParam>, name: &String) -> (found: bool)
    ensures
        found == named_in(used@, name@),
{
    let mut i: usize = 0;
    while i < used.len()
        invariant
            i <= used.len(),
            forall|k: int| 0 <= k < i ==> (#[trigger] used@[k]).name@ != name@,
        decreases used.len() - i,
    {
        if used[i].name == *name {
            return true;
        }
        i += 1;
    }
    false
}

/// Keeps of a `where` clause the predicates that speak of used parameters
/// alone, so that a generated type is not bound by parameters it lacks.
pub fn filter_wheres<'a>(
    clause: &'a Option<Vec<WherePredicate>>,
    generics: &Vec<GenericParam>,
    used_generics: &Vec<&GenericParam>,
) -> (wheres: Vec<&'a WherePredicate>)
    ensures
        wheres@ == wheres_of(*clause, generics@, used_generics@),
{
    let mut wheres: Vec<&'a WherePredicate> = Vec::new();
    if let Some(predicates) = clause {
        let mut i: usize = 0;
        while i < predicates.len()
            invariant
                i <= predicates.len(),
                wheres@ == kept(predicates@, generics@, used_generics@, i as int),
            decreases predicates.len() - i,
        {
            let mut checker = CheckGenerics::new(generics);
            checker.visit_where_predicate(&predicates[i]);
            let ghost places = mentioned(predicates@[i as int], generics@);
            let seen = checker.used();
            let mut all = true;
            let mut j: usize = 0;
            while j < seen.len()
                invariant
                    j <= seen.len(),
                    seen@ == params_at(generics@, places),
                    all == forall|k: int|
                        0 <= k < j ==> named_in(
                            used_generics@,
                            generics@[(#[trigger] places[k]) as int].name@,
                        ),
                decreases seen.len() - j,
            {
                assert(seen@[j as int] == &generics@[places[j as int] as int]);
                if !is_named_in(used_generics, &seen[j].name) {
                    all = false;
                }
                j += 1;
            }
            if all {
                wheres.push(&predicates[i]);
            }
            i += 1;
        }
    }
    wheres
}

} // verus!
