//! Which generic parameters of an owner occur in the types of its messages.

use crate::seqs::{first_where, lemma_first_where_is, lemma_first_where_none};
use crate::source::{GenericParam, Type, WherePredicate};
use vstd::prelude::*;

verus! {

/// The place of the first type parameter named `ident`.
pub open spec fn type_param(generics: Seq<GenericParam>, ident: Seq<char>) -> Option<int> {
    first_where(generics, |g: GenericParam| g.is_type && g.name@ == ident)
}

/// The places marked as used once `ident` has been seen: where it names a
/// type parameter that is not marked yet, its place comes last.
pub open spec fn mark(generics: Seq<GenericParam>, used: Seq<usize>, ident: Seq<char>) -> Seq<
    usize,
> {
    match type_param(generics, ident) {
        Some(g) => if used.contains(g as usize) {
            used
        } else {
            used.push(g as usize)
        },
        None => used,
    }
}

/// The places marked as used once every name of `idents` has been seen, in
/// order.
pub open spec fn marked(generics: Seq<GenericParam>, used: Seq<usize>, idents: Seq<Seq<char>>) -> Seq<
    usize,
>
    decreases idents.len(),
{
    if idents.len() == 0 {
        used
    } else {
        mark(generics, marked(generics, used, idents.drop_last()), idents.last())
    }
}

/// Seeing two runs of names one after the other is seeing their concatenation.
pub proof fn lemma_marked_concat(
    generics: Seq<GenericParam>,
    used: Seq<usize>,
    a: Seq<Seq<char>>,
    b: Seq<Seq<char>>,
)
    ensures
        marked(generics, used, a + b) == marked(generics, marked(generics, used, a), b),
    decreases b.len(),
{
    if b.len() == 0 {
        assert(a + b =~= a);
    } else {
        lemma_marked_concat(generics, used, a, b.drop_last());
        assert((a + b).drop_last() =~= a + b.drop_last());
        assert((a + b).last() == b.last());
    }
}

/// The parameters at the given places.
pub open spec fn params_at<'a>(generics: Seq<GenericParam>, places: Seq<usize>) -> Seq<
    &'a GenericParam,
> {
    Seq::new(places.len(), |i: int| &generics[places[i] as int])
}

/// The first `n` parameters without those at the given places, in the order
/// of their declaration.
pub open spec fn params_outside<'a>(generics: Seq<GenericParam>, places: Seq<usize>, n: int) -> Seq<
    &'a GenericParam,
>
    decreases n,
{
    if n <= 0 {
        Seq::empty()
    } else if places.contains((n - 1) as usize) {
        params_outside(generics, places, n - 1)
    } else {
        params_outside(generics, places, n - 1).push(&generics[n - 1])
    }
}

/// Records which of an owner's generic parameters occur in the types shown
/// to it.
pub struct CheckGenerics<'g> {
    generics: &'g Vec<GenericParam>,
    used: Vec<usize>,
}

impl<'g> CheckGenerics<'g> {
    /// Every marked place lies inside the parameter list.
    pub closed spec fn wf(&self) -> bool {
        forall|i: int| 0 <= i < self.used@.len() ==> (#[trigger] self.used@[i]) < self.generics@.len()
    }

    /// The parameters that are watched.
    pub closed spec fn generics(&self) -> Seq<GenericParam> {
        self.generics@
    }

    /// The places of the parameters seen so far, in the order in which each
    /// was first seen.
    pub closed spec fn marks(&self) -> Seq<usize> {
        self.used@
    }

    /// A record for the given parameters, with none of them marked.
    pub fn new(generics: &'g Vec<GenericParam>) -> (record: Self)
        ensures
            record.wf(),
            record.generics() == generics@,
            record.marks() == Seq::<usize>::empty(),
    {
        CheckGenerics { generics, used: Vec::new() }
    }

    /// Marks the type parameter of that name, if there is one.
    pub fn visit_ident(&mut self, ident: &String)
        requires
            old(self).wf(),
        ensures
            final(self).wf(),
            final(self).generics() == old(self).generics(),
            final(self).marks() == mark(old(self).generics(), old(self).marks(), ident@),
    {
        let ghost pred = |g: GenericParam| g.is_type && g.name@ == ident@;
        let mut i: usize = 0;
        while i < self.generics.len()
            invariant
                i <= self.generics@.len(),
                self.wf(),
                self.generics == old(self).generics,
                self.used == old(self).used,
                pred == (|g: GenericParam| g.is_type && g.name@ == ident@),
                forall|k: int| 0 <= k < i ==> !pred(#[trigger] self.generics@[k]),
            decreases self.generics@.len() - i,
        {
            if self.generics[i].is_type && self.generics[i].name == *ident {
                proof {
                    lemma_first_where_is(self.generics@, pred, i as int);
                }
                let mut seen = false;
                let mut j: usize = 0;
                while j < self.used.len()
                    invariant
                        j <= self.used@.len(),
                        i < self.generics@.len(),
                        self.wf(),
                        self.generics == old(self).generics,
                        self.used == old(self).used,
                        seen == exists|k: int| 0 <= k < j && self.used@[k] == i,
                    decreases self.used@.len() - j,
                {
                    if self.used[j] == i {
                        seen = true;
                    }
                    j += 1;
                }
                if !seen {
                    self.used.push(i);
                }
                return ;
            }
            i += 1;
        }
        proof {
            lemma_first_where_none(self.generics@, pred);
        }
    }

    /// Marks the type parameters that the names of a list name, in order.
    pub fn visit_idents(&mut self, idents: &Vec<String>)
        requires
            old(self).wf(),
        ensures
            final(self).wf(),
            final(self).generics() == old(self).generics(),
            final(self).marks() == marked(
                old(self).generics(),
                old(self).marks(),
                idents.deep_view(),
            ),
    {
        let ghost all = idents.deep_view();
        let mut i: usize = 0;
        while i < idents.len()
            invariant
                i <= idents.len(),
                all == idents.deep_view(),
                self.wf(),
                self.generics() == old(self).generics(),
                self.marks() == marked(old(self).generics(), old(self).marks(), all.take(i as int)),
            decreases idents.len() - i,
        {
            self.visit_ident(&idents[i]);
            proof {
                assert(all.take(i + 1).drop_last() =~= all.take(i as int));
                assert(all.take(i + 1).last() == idents@[i as int]@);
            }
            i += 1;
        }
        proof {
            assert(all.take(i as int) =~= all);
        }
    }

    /// Marks the type parameters that a type mentions.
    pub fn visit_type(&mut self, ty: &Type)
        requires
            old(self).wf(),
        ensures
            final(self).wf(),
            final(self).generics() == old(self).generics(),
            final(self).marks() == marked(
                old(self).generics(),
                old(self).marks(),
                ty.idents.deep_view(),
            ),
    {
        self.visit_idents(&ty.idents)
    }

    /// Marks the type parameters that a predicate of a `where` clause
    /// mentions.
    pub fn visit_where_predicate(&mut self, predicate: &WherePredicate)
        requires
            old(self).wf(),
        ensures
            final(self).wf(),
            final(self).generics() == old(self).generics(),
            final(self).marks() == marked(
                old(self).generics(),
                old(self).marks(),
                predicate.idents.deep_view(),
            ),
    {
        self.visit_idents(&predicate.idents)
    }

    /// The parameters seen, in the order in which each was first seen.
    pub fn used(self) -> (used: Vec<&'g GenericParam>)
        requires
            self.wf(),
        ensures
            used@ == params_at(self.generics(), self.marks()),
    {
        let mut out: Vec<&'g GenericParam> = Vec::new();
        let mut i: usize = 0;
        while i < self.used.len()
            invariant
                i <= self.used@.len(),
                self.wf(),
                out@ == params_at(self.generics@, self.used@.take(i as int)),
            decreases self.used@.len() - i,
        {
            out.push(&self.generics[self.used[i]]);
            proof {
                assert(out@ =~= params_at(self.generics@, self.used@.take(i + 1)));
            }
            i += 1;
        }
        proof {
            assert(self.used@.take(i as int) =~= self.used@);
        }
        out
    }

    /// The parameters seen, in the order in which each was first seen, and
    /// the others, in the order of their declaration.
    pub fn used_unused(self) -> (split: (Vec<&'g GenericParam>, Vec<&'g GenericParam>))
        requires
            self.wf(),
        ensures
            split.0@ == params_at(self.generics(), self.marks()),
            split.1@ == params_outside(
                self.generics(),
                self.marks(),
                self.generics().len() as int,
            ),
    {
        let mut unused: Vec<&'g GenericParam> = Vec::new();
        let mut i: usize = 0;
        while i < self.generics.len()
            invariant
                i <= self.generics@.len(),
                unused@ == params_outside(self.generics@, self.used@, i as int),
            decreases self.generics@.len() - i,
        {
            let mut seen = false;
            let mut j: usize = 0;
            while j < self.used.len()
                invariant
                    j <= self.used@.len(),
                    seen == exists|k: int| 0 <= k < j && self.used@[k] == i,
                decreases self.used@.len() - j,
            {
                if self.used[j] == i {
                    seen = true;
                }
                j += 1;
            }
            if !seen {
                unused.push(&self.generics[i]);
            }
            i += 1;
        }
        let used = self.used();
        (used, unused)
    }
}

} // verus!
