//! A field of a message variant.

use crate::check_generics::{marked, CheckGenerics};
use crate::source::{Pat, PatType, Type};
use vstd::prelude::*;

verus! {

/// One field of a message variant, borrowed from the parameter that declares it.
#[derive(Debug)]
pub struct MsgField<'a> {
    pub name: &'a String,
    pub ty: &'a Type,
    pub attrs: &'a Vec<String>,
}

/// A field as it is declared in a variant: its attributes, name and type.
#[derive(Debug)]
pub struct FieldDecl<'a> {
    pub attrs: &'a Vec<String>,
    pub name: &'a String,
    pub ty: &'a Type,
}

/// A field as a parameter of a function: its name and type.
#[derive(Debug)]
pub struct MethodField<'a> {
    pub name: &'a String,
    pub ty: &'a Type,
}

impl<'a> MsgField<'a> {
    /// The field that a parameter declares: one exists where the parameter's
    /// pattern is a plain name.
    pub open spec fn of(item: &'a PatType) -> Option<MsgField<'a>> {
        match item.pat {
            Pat::Ident(name) => Some(MsgField { name: &name, ty: &item.ty, attrs: &item.attrs }),
            Pat::Other => None,
        }
    }

    /// Makes the field that a parameter declares and marks the generic
    /// parameters that its type mentions; a parameter whose pattern is no
    /// plain name gives nothing and marks nothing.
    pub fn new(item: &'a PatType, generics_checker: &mut CheckGenerics) -> (field: Option<
        MsgField<'a>,
    >)
        requires
            old(generics_checker).wf(),
        ensures
            field == Self::of(item),
            final(generics_checker).wf(),
            final(generics_checker).generics() == old(generics_checker).generics(),
            final(generics_checker).marks() == if field is Some {
                marked(
                    old(generics_checker).generics(),
                    old(generics_checker).marks(),
                    item.ty.idents.deep_view(),
                )
            } else {
                old(generics_checker).marks()
            },
    {
        match &item.pat {
            Pat::Ident(name) => {
                generics_checker.visit_type(&item.ty);
                Some(MsgField { name, ty: &item.ty, attrs: &item.attrs })
            },
            Pat::Other => None,
        }
    }

    /// The field's declaration inside a variant.
    pub fn emit(&self) -> (decl: FieldDecl<'a>)
        ensures
            decl == (FieldDecl { attrs: self.attrs, name: self.name, ty: self.ty }),
    {
        FieldDecl { attrs: self.attrs, name: self.name, ty: self.ty }
    }

    /// The field as a parameter of a function.
    pub fn emit_method_field(&self) -> (decl: MethodField<'a>)
        ensures
            decl == (MethodField { name: self.name, ty: self.ty }),
    {
        MethodField { name: self.name, ty: self.ty }
    }

    /// The field's name.
    pub fn name(&self) -> (name: &'a String)
        ensures
            name == self.name,
    {
        self.name
    }
}

/// The declarations of fields.
pub open spec fn decls_of<'a>(fields: Seq<MsgField<'a>>) -> Seq<FieldDecl<'a>> {
    fields.map_values(|f: MsgField<'a>| FieldDecl { attrs: f.attrs, name: f.name, ty: f.ty })
}

/// Fields as parameters of a function.
pub open spec fn params_of<'a>(fields: Seq<MsgField<'a>>) -> Seq<MethodField<'a>> {
    fields.map_values(|f: MsgField<'a>| MethodField { name: f.name, ty: f.ty })
}

/// The names of fields.
pub open spec fn names_of<'a>(fields: Seq<MsgField<'a>>) -> Seq<&'a String> {
    fields.map_values(|f: MsgField<'a>| f.name)
}

/// The declarations of fields, in their order.
pub fn emit_fields<'a>(fields: &Vec<MsgField<'a>>) -> (decls: Vec<FieldDecl<'a>>)
    ensures
        decls@ == decls_of(fields@),
{
    let mut decls: Vec<FieldDecl<'a>> = Vec::new();
    let mut i: usize = 0;
    while i < fields.len()
        invariant
            i <= fields.len(),
            decls@ == decls_of(fields@.take(i as int)),
        decreases fields.len() - i,
    {
        decls.push(fields[i].emit());
        proof {
            assert(decls@ =~= decls_of(fields@.take(i + 1)));
        }
        i += 1;
    }
    proof {
        assert(fields@.take(i as int) =~= fields@);
    }
    decls
}

/// Fields as parameters of a function, in their order.
pub fn emit_method_fields<'a>(fields: &Vec<MsgField<'a>>) -> (params: Vec<MethodField<'a>>)
    ensures
        params@ == params_of(fields@),
{
    let mut params: Vec<MethodField<'a>> = Vec::new();
    let mut i: usize = 0;
    while i < fields.len()
        invariant
            i <= fields.len(),
            params@ == params_of(fields@.take(i as int)),
        decreases fields.len() - i,
    {
        params.push(fields[i].emit_method_field());
        proof {
            assert(params@ =~= params_of(fields@.take(i + 1)));
        }
        i += 1;
    }
    proof {
        assert(fields@.take(i as int) =~= fields@);
    }
    params
}

/// The names of fields, in their order.
pub fn field_names<'a>(fields: &Vec<MsgField<'a>>) -> (names: Vec<&'a String>)
    ensures
        names@ == names_of(fields@),
{
    let mut names: Vec<&'a String> = Vec::new();
    let mut i: usize = 0;
    while i < fields.len()
        invariant
            i <= fields.len(),
            names@ == names_of(fields@.take(i as int)),
        decreases fields.len() - i,
    {
        names.push(fields[i].name());
        proof {
            assert(names@ =~= names_of(fields@.take(i + 1)));
        }
        i += 1;
    }
    proof {
        assert(fields@.take(i as int) =~= fields@);
    }
    names
}

} // verus!
