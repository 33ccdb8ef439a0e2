//! The message of a category that a contract has one operation of:
//! instantiation, or migration.

use crate::check_generics::{marked, params_at, params_outside, CheckGenerics};
use crate::error::BuildError;
use crate::message::field::{
    decls_of, emit_fields, emit_method_fields, field_names, names_of, params_of, FieldDecl,
    MethodField, MsgField,
};
use crate::message::variants::{attr_of, chosen, takes};
use crate::seqs::{first_where, lemma_first_where_is, lemma_first_where_none};
use crate::source::{
    find_msg, CtxType, Custom, GenericParam, Item, ItemImpl, MsgAttr, MsgType, ReturnType, Type,
    WherePredicate,
};
use crate::utils::{
    fields_of, filter_wheres, first_bad, idents_of, parameters, process_fields, wheres_of,
};
use vstd::prelude::*;

verus! {

/// The message of a contract's instantiation or migration: a struct with the
/// parameters of the one method that declares it.
#[derive(Debug)]
pub struct StructMessage<'a> {
    pub contract_type: &'a Type,
    pub fields: Vec<MsgField<'a>>,
    pub function_name: &'a String,
    /// The generic parameters that occur in the fields.
    pub generics: Vec<&'a GenericParam>,
    /// The generic parameters that do not.
    pub unused_generics: Vec<&'a GenericParam>,
    /// The predicates of the `where` clause that bind used parameters alone.
    pub wheres: Vec<&'a WherePredicate>,
    pub full_where: Option<&'a Vec<WherePredicate>>,
    pub result: &'a ReturnType,
    pub msg_attr: &'a MsgAttr,
    pub custom: &'a Custom,
}

/// The struct that is generated for such a message, with its constructor and
/// its dispatch.
#[derive(Debug)]
pub struct StructDecl<'a> {
    pub name: &'a String,
    pub generics: &'a Vec<&'a GenericParam>,
    pub wheres: &'a Vec<&'a WherePredicate>,
    pub fields: Vec<FieldDecl<'a>>,
    /// The parameters of the constructor.
    pub parameters: Vec<MethodField<'a>>,
    /// The names of the fields, in the order in which the method takes them.
    pub fields_names: Vec<&'a String>,
    pub unused_generics: &'a Vec<&'a GenericParam>,
    pub contract_type: &'a Type,
    pub ctx_type: CtxType<'a>,
    /// The result of the dispatch: that of the method.
    pub result: &'a ReturnType,
    pub full_where: Option<&'a Vec<WherePredicate>>,
    /// The method that the dispatch calls.
    pub function_name: &'a String,
}

/// Whether the `msg` attribute of an item cannot be read.
pub open spec fn broken(item: Item) -> bool {
    attr_of(item) matches Some(Err(_))
}

/// The first item whose `msg` attribute cannot be read.
pub open spec fn first_broken(items: Seq<Item>) -> Option<int> {
    first_where(items, |item: Item| broken(item))
}

impl<'a> StructMessage<'a> {
    /// Whether the error `e` is why a contract has no message of the
    /// category: an attribute that cannot be read, no instantiation at all,
    /// a second method of the category, or a parameter of the method that
    /// declares no field.
    pub open spec fn refused(items: Seq<Item>, ty: MsgType, e: BuildError) -> bool {
        match first_broken(items) {
            Some(i) => e == (BuildError::Attribute {
                method: items[i]->Method_0.sig.ident,
                reason: attr_of(items[i])->0->Err_0,
            }),
            None => {
                let places = chosen(items, Some(ty), items.len() as int);
                if places.len() == 0 {
                    ty == MsgType::Instantiate && e == BuildError::Missing
                } else if places.len() > 1 {
                    e == (BuildError::Ambiguous { method: items[places[1]]->Method_0.sig.ident })
                } else {
                    let method = items[places[0]]->Method_0;
                    first_bad(&method.sig) matches Some(p) && e == (BuildError::Parameter {
                        method: method.sig.ident,
                        position: p as usize,
                    })
                }
            },
        }
    }

    /// Whether this is the message of the contract `source` for the
    /// category `ty`.
    pub open spec fn made_of(
        &self,
        source: &ItemImpl,
        ty: MsgType,
        generics: &Vec<GenericParam>,
        custom: &Custom,
    ) -> bool {
        let places = chosen(source.items@, Some(ty), source.items@.len() as int);
        let item = source.items@[places[0]];
        let method = item->Method_0;
        let marks = marked(generics@, Seq::empty(), idents_of(parameters(&method.sig)));
        &&& first_broken(source.items@) is None
        &&& places.len() == 1
        &&& first_bad(&method.sig) is None
        &&& self.contract_type == &source.self_ty
        &&& self.fields@ == fields_of(&method.sig)
        &&& self.function_name == &method.sig.ident
        &&& self.generics@ == params_at(generics@, marks)
        &&& self.unused_generics@ == params_outside(generics@, marks, generics@.len() as int)
        &&& self.wheres@ == wheres_of(source.generics.where_clause, generics@, self.generics@)
        &&& self.full_where == match source.generics.where_clause {
            Some(clause) => Some(&clause),
            None => None,
        }
        &&& self.result == &method.sig.output
        &&& self.msg_attr == &attr_of(item)->0->Ok_0
        &&& self.custom == custom
    }

    /// Makes the message of the one method of the contract that declares the
    /// category. A contract without such a method has no message of the
    /// category, which is an error for instantiation; two such methods are
    /// an error, and so are an attribute that cannot be read and a parameter
    /// that declares no field.
    pub fn new(
        source: &'a ItemImpl,
        ty: MsgType,
        generics: &'a Vec<GenericParam>,
        custom: &'a Custom,
    ) -> (message: Result<Option<StructMessage<'a>>, BuildError>)
        ensures
            match message {
                Ok(Some(message)) => message.made_of(source, ty, generics, custom),
                Ok(None) => {
                    &&& first_broken(source.items@) is None
                    &&& chosen(source.items@, Some(ty), source.items@.len() as int).len() == 0
                    &&& ty != MsgType::Instantiate
                },
                Err(e) => Self::refused(source.items@, ty, e),
            },
    {
        let items = &source.items;
        let ghost is_broken = |item: Item| broken(item);
        let mut first: Option<usize> = None;
        let mut second: Option<usize> = None;
        let mut i: usize = 0;
        while i < items.len()
            invariant
                i <= items.len(),
                items == &source.items,
                is_broken == (|item: Item| broken(item)),
                forall|k: int| 0 <= k < i ==> !is_broken(#[trigger] items@[k]),
                first is Some <==> chosen(items@, Some(ty), i as int).len() >= 1,
                first matches Some(at) ==> at == chosen(items@, Some(ty), i as int)[0] && at < i,
                second is Some <==> chosen(items@, Some(ty), i as int).len() >= 2,
                second matches Some(at) ==> at == chosen(items@, Some(ty), i as int)[1] && at < i,
            decreases items.len() - i,
        {
            if let Item::Method(method) = &items[i] {
                match find_msg(&method.attrs) {
                    Some(Ok(attr)) => {
                        if attr.msg_type() == ty {
                            if first.is_none() {
                                first = Some(i);
                            } else if second.is_none() {
                                second = Some(i);
                            }
                        }
                    },
                    Some(Err(reason)) => {
                        proof {
                            lemma_first_where_is(items@, is_broken, i as int);
                        }
                        return Err(
                            BuildError::Attribute {
                                method: method.sig.ident.clone(),
                                reason: reason.clone(),
                            },
                        );
                    },
                    None => {},
                }
            }
            i += 1;
        }
        proof {
            lemma_first_where_none(items@, is_broken);
            crate::message::variants::lemma_chosen(items@, Some(ty), items@.len() as int);
        }
        let at: usize = match first {
            Some(at) => at,
            None => {
                if ty == MsgType::Instantiate {
                    return Err(BuildError::Missing);
                }
                return Ok(None);
            },
        };
        if let Some(obsolete) = second {
            if let Item::Method(method) = &items[obsolete] {
                return Err(BuildError::Ambiguous { method: method.sig.ident.clone() });
            }
        }
        let method = match &items[at] {
            Item::Method(method) => method,
            Item::Other => {
                return Ok(None);
            },
        };
        let msg_attr = match find_msg(&method.attrs) {
            Some(Ok(attr)) => attr,
            _ => {
                return Ok(None);
            },
        };
        let mut generics_checker = CheckGenerics::new(generics);
        let fields = match process_fields(&method.sig, &mut generics_checker) {
            Ok(fields) => fields,
            Err(e) => {
                return Err(e);
            },
        };
        let (used_generics, unused_generics) = generics_checker.used_unused();
        let wheres = filter_wheres(&source.generics.where_clause, generics, &used_generics);
        Ok(
            Some(
                StructMessage {
                    contract_type: &source.self_ty,
                    fields,
                    function_name: &method.sig.ident,
                    generics: used_generics,
                    unused_generics,
                    wheres,
                    full_where: source.generics.where_clause.as_ref(),
                    result: &method.sig.output,
                    msg_attr,
                    custom,
                },
            ),
        )
    }

    /// Whether `decl` is the struct generated for this message under `name`.
    pub open spec fn emits(&self, name: &String, decl: StructDecl) -> bool {
        &&& decl.name == name
        &&& decl.generics == &self.generics
        &&& decl.wheres == &self.wheres
        &&& decl.fields@ == decls_of(self.fields@)
        &&& decl.parameters@ == params_of(self.fields@)
        &&& decl.fields_names@ == names_of(self.fields@)
        &&& decl.unused_generics == &self.unused_generics
        &&& decl.contract_type == self.contract_type
        &&& decl.ctx_type == (CtxType {
            shape: self.msg_attr.msg_type().ctx_shape(),
            query: self.custom.query_or_default(),
        })
        &&& decl.result == self.result
        &&& decl.full_where == self.full_where
        &&& decl.function_name == self.function_name
    }

    /// The struct of the message, under the name that its attribute gives.
    /// Only instantiation and migration have such a message; for any other
    /// category this is an error.
    pub fn emit<'b>(&'b self) -> (decl: Result<StructDecl<'b>, BuildError>)
        ensures
            match self.msg_attr {
                MsgAttr::Instantiate { name } => decl matches Ok(decl) && self.emits(name, decl),
                MsgAttr::Migrate { name } => decl matches Ok(decl) && self.emits(name, decl),
                _ => decl == Err::<StructDecl<'b>, BuildError>(BuildError::InvalidMessageType),
            },
    {
        match self.msg_attr {
            MsgAttr::Instantiate { name } => Ok(self.emit_struct(name)),
            MsgAttr::Migrate { name } => Ok(self.emit_struct(name)),
            _ => Err(BuildError::InvalidMessageType),
        }
    }

    /// The struct of the message under a given name: its fields, a
    /// constructor that takes them in order, and a dispatch that calls the
    /// method with the context and the fields.
    pub fn emit_struct<'b>(&'b self, name: &'b String) -> (decl: StructDecl<'b>)
        ensures
            self.emits(name, decl),
    {
        let ctx_type = self.msg_attr.msg_type().emit_ctx_type(self.custom.query_or_default());
        StructDecl {
            name,
            generics: &self.generics,
            wheres: &self.wheres,
            fields: emit_fields(&self.fields),
            parameters: emit_method_fields(&self.fields),
            fields_names: field_names(&self.fields),
            unused_generics: &self.unused_generics,
            contract_type: self.contract_type,
            ctx_type,
            result: self.result,
            full_where: self.full_where,
            function_name: self.function_name,
        }
    }
}

} // verus!
