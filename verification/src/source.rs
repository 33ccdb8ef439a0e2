//! What is read of an annotated trait or impl block: the part of the syntax
//! that message compilation looks at, as plain values.

use crate::seqs::{first_where, lemma_first_where_is, lemma_first_where_none};
use crate::text::text;
use vstd::prelude::*;

verus! {

/// The category of an operation.
#[derive(Clone, Copy, PartialEq, Eq, Structural, Debug)]
pub enum MsgType {
    Exec,
    Query,
    Instantiate,
    Migrate,
    Reply,
    Sudo,
}

/// The shape of the context that a handler of a category is called with.
#[derive(Clone, Copy, PartialEq, Eq, Structural, Debug)]
pub enum CtxShape {
    /// Mutable dependencies, the environment and the message's sender and
    /// funds.
    DepsMutEnvInfo,
    /// Mutable dependencies and the environment.
    DepsMutEnv,
    /// Read-only dependencies and the environment.
    DepsEnv,
}

/// The type of the context of a dispatch: its shape, and the query type that
/// the dependencies are bound to.
#[derive(Clone, Copy, Debug)]
pub struct CtxType<'a> {
    pub shape: CtxShape,
    pub query: Extension<'a>,
}

/// The error type of a dispatch.
#[derive(Clone, Copy, Debug)]
pub enum ErrorType<'a> {
    /// The error type of the contract that is called.
    Handler,
    /// A named type.
    Named(&'a Type),
}

/// The result type of a dispatch.
#[derive(Clone, Copy, Debug)]
pub enum DispatchType<'a> {
    /// A response that may carry custom messages.
    Response { msg: Extension<'a>, error: ErrorType<'a> },
    /// A serialised answer.
    Binary { error: ErrorType<'a> },
}

impl MsgType {
    /// The shape of the context of the category.
    pub open spec fn ctx_shape(self) -> CtxShape {
        match self {
            MsgType::Exec | MsgType::Instantiate => CtxShape::DepsMutEnvInfo,
            MsgType::Migrate | MsgType::Reply | MsgType::Sudo => CtxShape::DepsMutEnv,
            MsgType::Query => CtxShape::DepsEnv,
        }
    }

    /// The type of the context that a dispatch of the category takes.
    pub fn emit_ctx_type<'a>(self, query_type: Extension<'a>) -> (ctx: CtxType<'a>)
        ensures
            ctx.shape == self.ctx_shape(),
            ctx.query == query_type,
    {
        let shape = match self {
            MsgType::Exec | MsgType::Instantiate => CtxShape::DepsMutEnvInfo,
            MsgType::Migrate | MsgType::Reply | MsgType::Sudo => CtxShape::DepsMutEnv,
            MsgType::Query => CtxShape::DepsEnv,
        };
        CtxType { shape, query: query_type }
    }

    /// The type that a dispatch of the category gives: a query gives a
    /// serialised answer, any other a response.
    pub open spec fn result_type<'a>(
        self,
        msg_type: Extension<'a>,
        err_type: ErrorType<'a>,
    ) -> DispatchType<'a> {
        match self {
            MsgType::Query => DispatchType::Binary { error: err_type },
            _ => DispatchType::Response { msg: msg_type, error: err_type },
        }
    }

    /// The type that a dispatch of the category gives.
    pub fn emit_result_type<'a>(self, msg_type: Extension<'a>, err_type: ErrorType<'a>) -> (result:
        DispatchType<'a>)
        ensures
            result == self.result_type(msg_type, err_type),
    {
        match self {
            MsgType::Query => DispatchType::Binary { error: err_type },
            _ => DispatchType::Response { msg: msg_type, error: err_type },
        }
    }
}

/// A type as written in the source.
#[derive(Debug)]
pub struct Type {
    /// The type's text.
    pub text: String,
    /// The type's text without the generic arguments of its paths.
    pub bare: String,
    /// The one-segment paths that occur in the type, in order of appearance.
    pub idents: Vec<String>,
}

/// A generic parameter of a trait or an impl block.
#[derive(Debug)]
pub struct GenericParam {
    /// The parameter's name.
    pub name: String,
    /// Whether it is a type parameter, as opposed to a lifetime or a constant.
    pub is_type: bool,
    /// The parameter as written, bounds included.
    pub text: String,
}

/// One predicate of a `where` clause.
#[derive(Debug)]
pub struct WherePredicate {
    /// The predicate's text.
    pub text: String,
    /// The one-segment paths that occur in it, in order of appearance.
    pub idents: Vec<String>,
}

/// The generic parameters of an item and its `where` clause.
#[derive(Debug)]
pub struct Generics {
    pub params: Vec<GenericParam>,
    pub where_clause: Option<Vec<WherePredicate>>,
}

/// The pattern of a function parameter.
#[derive(Debug)]
pub enum Pat {
    /// A plain name.
    Ident(String),
    /// Any other pattern.
    Other,
}

/// A typed function parameter.
#[derive(Debug)]
pub struct PatType {
    /// The attributes on the parameter, each as written.
    pub attrs: Vec<String>,
    pub pat: Pat,
    pub ty: Type,
}

/// A function parameter.
#[derive(Debug)]
pub enum FnArg {
    /// `self` in any form.
    Receiver,
    Typed(PatType),
}

/// A declared result type.
#[derive(Debug)]
pub struct ResultType {
    /// The type's text.
    pub text: String,
    /// The name of the type's first path segment; empty when it is no path.
    pub outer: String,
    /// The first generic argument of that segment, when it is a type path.
    pub inner: Option<String>,
}

/// What a function returns.
#[derive(Debug)]
pub enum ReturnType {
    /// Nothing is declared.
    Default,
    Type(ResultType),
}

/// A function signature.
#[derive(Debug)]
pub struct Signature {
    pub ident: String,
    pub inputs: Vec<FnArg>,
    pub output: ReturnType,
}

/// The content of a `msg` attribute.
#[derive(Debug)]
pub enum MsgAttr {
    Exec,
    Query {
        /// The response type, where the attribute names one.
        resp_type: Option<String>,
    },
    Instantiate {
        /// The name of the message type.
        name: String,
    },
    Migrate {
        /// The name of the message type.
        name: String,
    },
    Reply,
    Sudo,
}

impl MsgAttr {
    /// The category that the attribute declares.
    pub open spec fn spec_msg_type(&self) -> MsgType {
        match self {
            MsgAttr::Exec => MsgType::Exec,
            MsgAttr::Query { .. } => MsgType::Query,
            MsgAttr::Instantiate { .. } => MsgType::Instantiate,
            MsgAttr::Migrate { .. } => MsgType::Migrate,
            MsgAttr::Reply => MsgType::Reply,
            MsgAttr::Sudo => MsgType::Sudo,
        }
    }

    /// The category that the attribute declares.
    #[verifier::when_used_as_spec(spec_msg_type)]
    pub fn msg_type(&self) -> (ty: MsgType)
        ensures
            ty == self.spec_msg_type(),
    {
        match self {
            MsgAttr::Exec => MsgType::Exec,
            MsgAttr::Query { .. } => MsgType::Query,
            MsgAttr::Instantiate { .. } => MsgType::Instantiate,
            MsgAttr::Migrate { .. } => MsgType::Migrate,
            MsgAttr::Reply => MsgType::Reply,
            MsgAttr::Sudo => MsgType::Sudo,
        }
    }
}

/// An attribute on a method or an impl block, with what its tokens were read
/// as. Where they do not fit the attribute, the text says why.
#[derive(Debug)]
pub enum Attribute {
    /// A `msg` attribute.
    Msg(Result<MsgAttr, String>),
    /// An `error` attribute, which names the error type of a contract.
    Error(Result<Type, String>),
    /// An attribute that replaces the entry point of one category.
    OverrideEntryPoint(Result<OverrideEntryPoint, String>),
    /// An attribute that declares the custom types of a contract.
    Custom(Result<Custom, String>),
    /// An attribute that message compilation does not read.
    Other,
}

/// The replacement of the entry point of one category: the function that
/// stands in its place, and the message type that the function takes.
#[derive(Debug)]
pub struct OverrideEntryPoint {
    pub entry_point: String,
    pub msg_name: String,
    pub msg_type: MsgType,
}

/// A method of a trait or an impl block.
#[derive(Debug)]
pub struct Method {
    pub attrs: Vec<Attribute>,
    pub sig: Signature,
}

/// An item of a trait or an impl block.
#[derive(Debug)]
pub enum Item {
    Method(Method),
    /// An associated type, a constant or a macro.
    Other,
}

/// A trait that declares an interface.
#[derive(Debug)]
pub struct ItemTrait {
    pub ident: String,
    pub generics: Generics,
    pub items: Vec<Item>,
    /// The associated type `ExecC`, where the trait fixes it.
    pub exec_custom: Option<Type>,
    /// The associated type `QueryC`, where the trait fixes it.
    pub query_custom: Option<Type>,
}

/// An impl block that declares a contract.
#[derive(Debug)]
pub struct ItemImpl {
    pub attrs: Vec<Attribute>,
    pub generics: Generics,
    pub self_ty: Type,
    pub items: Vec<Item>,
}

/// The custom message and query types of a contract or an interface.
#[derive(Debug)]
pub struct Custom {
    pub msg: Option<Type>,
    pub query: Option<Type>,
}

/// A custom type in force: the one that was declared, or the empty default.
#[derive(Clone, Copy, Debug)]
pub enum Extension<'a> {
    Custom(&'a Type),
    Empty,
}

impl Custom {
    /// The custom message type, where one is declared.
    pub fn msg(&self) -> (ty: Option<&Type>)
        ensures
            ty == match self.msg {
                Some(t) => Some(&t),
                None => None,
            },
    {
        self.msg.as_ref()
    }

    /// The custom query type, where one is declared.
    pub fn query(&self) -> (ty: Option<&Type>)
        ensures
            ty == match self.query {
                Some(t) => Some(&t),
                None => None,
            },
    {
        self.query.as_ref()
    }

    /// The message type in force.
    pub open spec fn spec_msg_or_default(&self) -> Extension<'_> {
        match self.msg {
            Some(t) => Extension::Custom(&t),
            None => Extension::Empty,
        }
    }

    /// The query type in force.
    pub open spec fn spec_query_or_default(&self) -> Extension<'_> {
        match self.query {
            Some(t) => Extension::Custom(&t),
            None => Extension::Empty,
        }
    }

    /// The message type in force.
    #[verifier::when_used_as_spec(spec_msg_or_default)]
    pub fn msg_or_default(&self) -> (ty: Extension<'_>)
        ensures
            ty == self.spec_msg_or_default(),
    {
        match &self.msg {
            Some(t) => Extension::Custom(t),
            None => Extension::Empty,
        }
    }

    /// The query type in force.
    #[verifier::when_used_as_spec(spec_query_or_default)]
    pub fn query_or_default(&self) -> (ty: Extension<'_>)
        ensures
            ty == self.spec_query_or_default(),
    {
        match &self.query {
            Some(t) => Extension::Custom(t),
            None => Extension::Empty,
        }
    }

    /// The custom type in force for an interface: the one declared for it,
    /// else the one its trait fixes, else the empty default.
    pub open spec fn extension<'a>(
        declared: &'a Option<Type>,
        associated: &'a Option<Type>,
    ) -> Extension<'a> {
        match declared {
            Some(t) => Extension::Custom(t),
            None => match associated {
                Some(t) => Extension::Custom(t),
                None => Extension::Empty,
            },
        }
    }

    /// The custom type in force for an interface.
    pub fn resolve<'a>(declared: &'a Option<Type>, associated: &'a Option<Type>) -> (ty: Extension<'a>)
        ensures
            ty == Self::extension(declared, associated),
    {
        match declared {
            Some(t) => Extension::Custom(t),
            None => match associated {
                Some(t) => Extension::Custom(t),
                None => Extension::Empty,
            },
        }
    }

    /// The type that stands where no custom type is declared.
    pub fn default_type() -> (ty: Type)
        ensures
            ty.text@ == "sylvia::cw_std::Empty"@,
            ty.bare@ == "sylvia::cw_std::Empty"@,
            ty.idents@.len() == 0,
    {
        Type {
            text: text("sylvia::cw_std::Empty"),
            bare: text("sylvia::cw_std::Empty"),
            idents: Vec::new(),
        }
    }
}

/// The place of the first `msg` attribute of a list.
pub open spec fn first_msg(attrs: Seq<Attribute>) -> Option<int> {
    first_where(attrs, |a: Attribute| a is Msg)
}

/// The place of the first `error` attribute of a list.
pub open spec fn first_error(attrs: Seq<Attribute>) -> Option<int> {
    first_where(attrs, |a: Attribute| a is Error)
}

/// Finds the first `msg` attribute and gives what it was read as.
pub fn find_msg<'a>(attrs: &'a Vec<Attribute>) -> (found: Option<&'a Result<MsgAttr, String>>)
    ensures
        match first_msg(attrs@) {
            Some(i) => found == Some(&attrs@[i]->Msg_0),
            None => found is None,
        },
{
    let ghost is_msg = |a: Attribute| a is Msg;
    let mut i: usize = 0;
    while i < attrs.len()
        invariant
            i <= attrs.len(),
            is_msg == (|a: Attribute| a is Msg),
            forall|k: int| 0 <= k < i ==> !is_msg(#[trigger] attrs@[k]),
        decreases attrs.len() - i,
    {
        if let Attribute::Msg(read) = &attrs[i] {
            proof {
                lemma_first_where_is(attrs@, is_msg, i as int);
            }
            return Some(read);
        }
        i += 1;
    }
    proof {
        lemma_first_where_none(attrs@, is_msg);
    }
    None
}

/// Finds the first `error` attribute and gives what it was read as.
pub fn find_error<'a>(attrs: &'a Vec<Attribute>) -> (found: Option<&'a Result<Type, String>>)
    ensures
        match first_error(attrs@) {
            Some(i) => found == Some(&attrs@[i]->Error_0),
            None => found is None,
        },
{
    let ghost is_error = |a: Attribute| a is Error;
    let mut i: usize = 0;
    while i < attrs.len()
        invariant
            i <= attrs.len(),
            is_error == (|a: Attribute| a is Error),
            forall|k: int| 0 <= k < i ==> !is_error(#[trigger] attrs@[k]),
        decreases attrs.len() - i,
    {
        if let Attribute::Error(read) = &attrs[i] {
            proof {
                lemma_first_where_is(attrs@, is_error, i as int);
            }
            return Some(read);
        }
        i += 1;
    }
    proof {
        lemma_first_where_none(attrs@, is_error);
    }
    None
}

} // verus!
