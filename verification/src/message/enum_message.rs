//! The message sets of one category: that of an interface, and that of a
//! contract.

use crate::check_generics::{marked, params_at, params_outside, CheckGenerics};
use crate::error::BuildError;
use crate::message::variant::{
    leg_kind, Constructor, DispatchLeg, MsgVariant, Owner, VariantDecl,
};
use crate::message::variants::{
    calls, compile_variants, compiled, dispatch_variant, dispatchable, dispatches,
    emit_constructors, emit_legs, emit_variants, lists, messages_of, seen_idents, stopped, wires,
};
use crate::wire::Invocation;
use crate::source::{
    CtxType, Custom, DispatchType, ErrorType, Extension, GenericParam, ItemImpl, ItemTrait,
    MsgType, Type, WherePredicate,
};
use crate::text::text;
use crate::utils::{filter_wheres, wheres_of};
use vstd::prelude::*;
use vstd::string::StringExecFns;

verus! {

/// The message set of an interface for one category.
#[derive(Debug)]
pub struct EnumMessage<'a> {
    pub name: &'a String,
    pub trait_name: &'a String,
    pub variants: Vec<MsgVariant<'a>>,
    /// The generic parameters that occur in the fields of the variants.
    pub generics: Vec<&'a GenericParam>,
    /// The generic parameters that do not.
    pub unused_generics: Vec<&'a GenericParam>,
    pub all_generics: &'a Vec<GenericParam>,
    /// The predicates of the trait's `where` clause that bind used
    /// parameters alone.
    pub wheres: Vec<&'a WherePredicate>,
    pub full_where: Option<&'a Vec<WherePredicate>>,
    pub msg_ty: MsgType,
    pub resp_type: Extension<'a>,
    pub query_type: Extension<'a>,
}

/// The enum that is generated for an interface's message set, with its
/// dispatch, its list of wire names and its constructors.
#[derive(Debug)]
pub struct EnumDecl<'a> {
    /// The enum's own name: the trait's name followed by the set's name.
    pub unique_enum_name: String,
    /// The set's name, under which the enum is known as well.
    pub name: &'a String,
    /// Whether the enum derives the schema of its responses; the set of
    /// queries does.
    pub query_responses: bool,
    pub generics: &'a Vec<&'a GenericParam>,
    pub wheres: &'a Vec<&'a WherePredicate>,
    pub variants: Vec<VariantDecl<'a>>,
    /// The trait that the contract of a dispatch implements.
    pub trait_name: &'a String,
    pub all_generics: &'a Vec<GenericParam>,
    pub unused_generics: &'a Vec<&'a GenericParam>,
    pub ctx_type: CtxType<'a>,
    pub dispatch_type: DispatchType<'a>,
    pub full_where: Option<&'a Vec<WherePredicate>>,
    pub match_arms: Vec<DispatchLeg<'a>>,
    /// The wire names, ascending.
    pub msgs: Vec<String>,
    pub variants_constructors: Vec<Constructor<'a>>,
}

impl<'a> EnumMessage<'a> {
    /// Whether this is the message set of the trait `source` for the
    /// category `ty`.
    pub open spec fn made_of(
        &self,
        name: &String,
        source: &ItemTrait,
        ty: MsgType,
        generics: &Vec<GenericParam>,
        custom: &Custom,
    ) -> bool {
        let marks = marked(
            generics@,
            Seq::empty(),
            seen_idents(source.items@, Some(ty), source.items@.len() as int),
        );
        &&& self.name == name
        &&& self.trait_name == &source.ident
        &&& compiled(self.variants@, source.items@, Some(ty))
        &&& self.generics@ == params_at(generics@, marks)
        &&& self.unused_generics@ == params_outside(generics@, marks, generics@.len() as int)
        &&& self.all_generics == generics
        &&& self.wheres@ == wheres_of(source.generics.where_clause, generics@, self.generics@)
        &&& self.full_where == match source.generics.where_clause {
            Some(clause) => Some(&clause),
            None => None,
        }
        &&& self.msg_ty == ty
        &&& self.resp_type == Custom::extension(&custom.msg, &source.exec_custom)
        &&& self.query_type == Custom::extension(&custom.query, &source.query_custom)
    }

    /// Compiles the message set of a trait for one category: a variant for
    /// each method whose `msg` attribute declares that category, in the
    /// order of the methods. A method that cannot be read, or two operations
    /// with one wire name, are an error.
    pub fn new(
        name: &'a String,
        source: &'a ItemTrait,
        ty: MsgType,
        generics: &'a Vec<GenericParam>,
        custom: &'a Custom,
    ) -> (message: Result<Self, BuildError>)
        ensures
            match message {
                Ok(message) => message.made_of(name, source, ty, generics, custom),
                Err(e) => stopped(source.items@, Some(ty), e),
            },
    {
        let trait_name = &source.ident;
        let mut generics_checker = CheckGenerics::new(generics);
        let variants = match compile_variants(&source.items, &mut generics_checker, ty) {
            Ok(variants) => variants,
            Err(e) => {
                return Err(e);
            },
        };
        let resp_type = Custom::resolve(&custom.msg, &source.exec_custom);
        let query_type = Custom::resolve(&custom.query, &source.query_custom);
        let (used_generics, unused_generics) = generics_checker.used_unused();
        let wheres = filter_wheres(&source.generics.where_clause, generics, &used_generics);
        Ok(
            EnumMessage {
                name,
                trait_name,
                variants,
                generics: used_generics,
                unused_generics,
                all_generics: generics,
                wheres,
                full_where: source.generics.where_clause.as_ref(),
                msg_ty: ty,
                resp_type,
                query_type,
            },
        )
    }

    /// The wire names of the set: in ascending order, each once, as many as
    /// there are operations with different wire names.
    pub fn messages(&self) -> (names: Vec<String>)
        ensures
            lists(names.deep_view(), wires(self.variants@)),
            names.deep_view().no_duplicates(),
            names.len() == wires(self.variants@).to_set().len(),
            wires(self.variants@).no_duplicates() ==> names.len() == self.variants.len(),
    {
        messages_of(&self.variants)
    }

    /// The call that the set makes for the variant at the given place: the
    /// handler is the method that the variant was made of, with the
    /// variant's fields in order. Nothing where there is no such variant, or
    /// where the set is of a category that is not dispatched.
    pub fn dispatch<'b>(&'b self, variant: usize) -> (call: Option<Invocation<'b>>)
        ensures
            match call {
                Some(call) => {
                    &&& variant < self.variants@.len()
                    &&& leg_kind(Owner::Interface, self.msg_ty) is Some
                    &&& calls(call, self.variants@[variant as int], Owner::Interface, self.msg_ty)
                },
                None => !(variant < self.variants@.len() && leg_kind(
                    Owner::Interface,
                    self.msg_ty,
                ) is Some),
            },
    {
        dispatch_variant(&self.variants, Owner::Interface, self.msg_ty, variant)
    }

    /// Whether `decl` is the enum generated for this set.
    pub open spec fn emits(&self, decl: EnumDecl) -> bool {
        &&& decl.unique_enum_name@ == self.trait_name@ + self.name@
        &&& decl.name == self.name
        &&& decl.query_responses == (self.name@ == "QueryMsg"@)
        &&& decl.generics == &self.generics
        &&& decl.wheres == &self.wheres
        &&& decl.variants@.len() == self.variants@.len()
        &&& forall|k: int|
            0 <= k < decl.variants@.len() ==> (#[trigger] decl.variants@[k]).declares(
                self.variants@[k],
            )
        &&& decl.trait_name == self.trait_name
        &&& decl.all_generics == self.all_generics
        &&& decl.unused_generics == &self.unused_generics
        &&& decl.ctx_type == (CtxType { shape: self.msg_ty.ctx_shape(), query: self.query_type })
        &&& decl.dispatch_type == self.msg_ty.result_type(self.resp_type, ErrorType::Handler)
        &&& decl.full_where == self.full_where
        &&& dispatches(decl.match_arms@, self.variants@, Owner::Interface, self.msg_ty)
        &&& lists(decl.msgs.deep_view(), wires(self.variants@))
        &&& decl.variants_constructors@.len() == self.variants@.len()
        &&& forall|k: int|
            0 <= k < decl.variants_constructors@.len() ==> (
            #[trigger] decl.variants_constructors@[k]).constructs(self.variants@[k])
    }

    /// The enum of the set: its variants, a dispatch with one leg for each
    /// variant, the ascending list of the wire names, and a constructor for
    /// each variant. An interface's sets dispatch executions and queries; a
    /// set of a category that only a contract may declare cannot dispatch
    /// its variants: that is an error, which names the first.
    pub fn emit<'b>(&'b self) -> (decl: Result<EnumDecl<'b>, BuildError>)
        ensures
            match decl {
                Ok(decl) => dispatchable(self.variants@, Owner::Interface, self.msg_ty) && self.emits(decl),
                Err(e) => !dispatchable(self.variants@, Owner::Interface, self.msg_ty) && e == (
                BuildError::Unsupported { variant: self.variants@[0].name }),
            },
    {
        let match_arms = match emit_legs(&self.variants, Owner::Interface, self.msg_ty) {
            Ok(legs) => legs,
            Err(e) => {
                return Err(e);
            },
        };
        let msgs = self.messages();
        let variants_constructors = emit_constructors(&self.variants);
        let variants = emit_variants(&self.variants);
        let ctx_type = self.msg_ty.emit_ctx_type(self.query_type);
        let dispatch_type = self.msg_ty.emit_result_type(self.resp_type, ErrorType::Handler);
        let unique_enum_name = self.trait_name.clone().concat(self.name.as_str());
        let query_responses = *self.name == text("QueryMsg");
        Ok(
            EnumDecl {
                unique_enum_name,
                name: self.name,
                query_responses,
                generics: &self.generics,
                wheres: &self.wheres,
                variants,
                trait_name: self.trait_name,
                all_generics: self.all_generics,
                unused_generics: &self.unused_generics,
                ctx_type,
                dispatch_type,
                full_where: self.full_where,
                match_arms,
                msgs,
                variants_constructors,
            },
        )
    }
}

/// The message set of a contract for one category.
#[derive(Debug)]
pub struct ContractEnumMessage<'a> {
    pub name: &'a String,
    pub variants: Vec<MsgVariant<'a>>,
    pub msg_ty: MsgType,
    pub contract: &'a Type,
    pub error: &'a Type,
    pub custom: &'a Custom,
}

/// The enum that is generated for a contract's message set, with its
/// dispatch, its list of wire names and its constructors.
#[derive(Debug)]
pub struct ContractEnumDecl<'a> {
    pub name: &'a String,
    /// Whether the enum derives the schema of its responses; the set of
    /// queries does.
    pub query_responses: bool,
    pub variants: Vec<VariantDecl<'a>>,
    /// The contract's type without its generic arguments.
    pub contract: &'a String,
    pub ctx_type: CtxType<'a>,
    pub ret_type: DispatchType<'a>,
    pub match_arms: Vec<DispatchLeg<'a>>,
    /// The wire names, ascending.
    pub msgs: Vec<String>,
    pub variants_constructors: Vec<Constructor<'a>>,
}

impl<'a> ContractEnumMessage<'a> {
    /// Whether this is the message set of the contract `source` for the
    /// category `ty`.
    pub open spec fn made_of(
        &self,
        name: &String,
        source: &ItemImpl,
        ty: MsgType,
        error: &Type,
        custom: &Custom,
    ) -> bool {
        &&& self.name == name
        &&& compiled(self.variants@, source.items@, Some(ty))
        &&& self.msg_ty == ty
        &&& self.contract == &source.self_ty
        &&& self.error == error
        &&& self.custom == custom
    }

    /// Compiles the message set of a contract for one category: a variant
    /// for each method whose `msg` attribute declares that category, in the
    /// order of the methods. A method that cannot be read, or two operations
    /// with one wire name, are an error.
    pub fn new(
        name: &'a String,
        source: &'a ItemImpl,
        ty: MsgType,
        generics: &'a Vec<GenericParam>,
        error: &'a Type,
        custom: &'a Custom,
    ) -> (message: Result<Self, BuildError>)
        ensures
            match message {
                Ok(message) => message.made_of(name, source, ty, error, custom),
                Err(e) => stopped(source.items@, Some(ty), e),
            },
    {
        let mut generics_checker = CheckGenerics::new(generics);
        let variants = match compile_variants(&source.items, &mut generics_checker, ty) {
            Ok(variants) => variants,
            Err(e) => {
                return Err(e);
            },
        };
        Ok(
            ContractEnumMessage {
                name,
                variants,
                msg_ty: ty,
                contract: &source.self_ty,
                error,
                custom,
            },
        )
    }

    /// The wire names of the set: in ascending order, each once, as many as
    /// there are operations with different wire names.
    pub fn messages(&self) -> (names: Vec<String>)
        ensures
            lists(names.deep_view(), wires(self.variants@)),
            names.deep_view().no_duplicates(),
            names.len() == wires(self.variants@).to_set().len(),
            wires(self.variants@).no_duplicates() ==> names.len() == self.variants.len(),
    {
        messages_of(&self.variants)
    }

    /// The call that the set makes for the variant at the given place: the
    /// handler is the method that the variant was made of, with the
    /// variant's fields in order. Nothing where there is no such variant, or
    /// where the set is of a category that is not dispatched.
    pub fn dispatch<'b>(&'b self, variant: usize) -> (call: Option<Invocation<'b>>)
        ensures
            match call {
                Some(call) => {
                    &&& variant < self.variants@.len()
                    &&& leg_kind(Owner::Contract, self.msg_ty) is Some
                    &&& calls(call, self.variants@[variant as int], Owner::Contract, self.msg_ty)
                },
                None => !(variant < self.variants@.len() && leg_kind(
                    Owner::Contract,
                    self.msg_ty,
                ) is Some),
            },
    {
        dispatch_variant(&self.variants, Owner::Contract, self.msg_ty, variant)
    }

    /// Whether `decl` is the enum generated for this set.
    pub open spec fn emits(&self, decl: ContractEnumDecl) -> bool {
        &&& decl.name == self.name
        &&& decl.query_responses == (self.name@ == "QueryMsg"@)
        &&& decl.variants@.len() == self.variants@.len()
        &&& forall|k: int|
            0 <= k < decl.variants@.len() ==> (#[trigger] decl.variants@[k]).declares(
                self.variants@[k],
            )
        &&& decl.contract == &self.contract.bare
        &&& decl.ctx_type == (CtxType {
            shape: self.msg_ty.ctx_shape(),
            query: self.custom.query_or_default(),
        })
        &&& decl.ret_type == self.msg_ty.result_type(
            self.custom.msg_or_default(),
            ErrorType::Named(self.error),
        )
        &&& dispatches(decl.match_arms@, self.variants@, Owner::Contract, self.msg_ty)
        &&& lists(decl.msgs.deep_view(), wires(self.variants@))
        &&& decl.variants_constructors@.len() == self.variants@.len()
        &&& forall|k: int|
            0 <= k < decl.variants_constructors@.len() ==> (
            #[trigger] decl.variants_constructors@[k]).constructs(self.variants@[k])
    }

    /// The enum of the set: its variants, a dispatch on the contract with one
    /// leg for each variant, the ascending list of the wire names, and a
    /// constructor for each variant. A contract's sets dispatch executions,
    /// queries and privileged operations; instantiation, migration and
    /// replies have one handler each and no set: variants of such a category
    /// are an error, which names the first.
    pub fn emit<'b>(&'b self) -> (decl: Result<ContractEnumDecl<'b>, BuildError>)
        ensures
            match decl {
                Ok(decl) => dispatchable(self.variants@, Owner::Contract, self.msg_ty) && self.emits(decl),
                Err(e) => !dispatchable(self.variants@, Owner::Contract, self.msg_ty) && e == (
                BuildError::NotDispatched { variant: self.variants@[0].name }),
            },
    {
        let match_arms = match emit_legs(&self.variants, Owner::Contract, self.msg_ty) {
            Ok(legs) => legs,
            Err(e) => {
                return Err(e);
            },
        };
        let msgs = self.messages();
        let variants_constructors = emit_constructors(&self.variants);
        let variants = emit_variants(&self.variants);
        let ctx_type = self.msg_ty.emit_ctx_type(self.custom.query_or_default());
        let contract = &self.contract.bare;
        let ret_type = self.msg_ty.emit_result_type(
            self.custom.msg_or_default(),
            ErrorType::Named(self.error),
        );
        let query_responses = *self.name == text("QueryMsg");
        Ok(
            ContractEnumDecl {
                name: self.name,
                query_responses,
                variants,
                contract,
                ctx_type,
                ret_type,
                match_arms,
                msgs,
                variants_constructors,
            },
        )
    }
}

} // verus!
