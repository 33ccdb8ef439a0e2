//! A message variant: one operation of an owner, as an arm of its message
//! set.

use crate::check_generics::{marked, CheckGenerics};
use crate::error::BuildError;
use crate::message::field::{
    decls_of, emit_fields, emit_method_fields, field_names, names_of, params_of, FieldDecl,
    MethodField, MsgField,
};
use crate::source::{MsgAttr, MsgType, Signature};
use crate::text::{decimal, decimal_text, respell, snake_case, text, upper_camel_case, Spelling};
use crate::utils::{
    extract_return_type, fields_of, first_bad, idents_of, parameters, process_fields, response_in,
};
use vstd::prelude::*;
use vstd::string::StringExecFns;

verus! {

/// One operation of an owner. Its tag is the method's name in upper camel
/// case; its wire name is the tag in snake case.
#[derive(Debug)]
pub struct MsgVariant<'a> {
    pub name: String,
    pub function_name: &'a String,
    pub fields: Vec<MsgField<'a>>,
    /// The response type; only a query has one.
    pub return_type: Option<&'a String>,
    pub msg_type: MsgType,
}

/// A variant as it is declared in the enum of its message set.
#[derive(Debug)]
pub struct VariantDecl<'a> {
    pub name: &'a String,
    pub fields: Vec<FieldDecl<'a>>,
    /// The response type that the declaration is annotated with.
    pub response: Option<&'a String>,
}

/// What a dispatch leg does with the handler's result.
#[derive(Clone, Copy, PartialEq, Eq, Structural, Debug)]
pub enum LegKind {
    /// The result is handed on; its error is converted. Executions are
    /// called so, and the privileged operations of a contract.
    Exec,
    /// The result is serialised into the binary envelope; an error of the
    /// handler or of the serialisation is converted.
    Query,
}

/// One leg of a dispatch: the variant it matches, the names it binds the
/// variant's fields to, and the method it calls with them, after the context.
#[derive(Debug)]
pub struct DispatchLeg<'a> {
    pub variant: &'a String,
    pub fields: Vec<&'a String>,
    /// The names that the fields are bound to, in the order of the fields.
    pub args: Vec<String>,
    pub function_name: &'a String,
    pub kind: LegKind,
}

/// The constructor of a variant: a function named by the wire name, which
/// takes the fields in order and gives the variant.
#[derive(Debug)]
pub struct Constructor<'a> {
    pub method_name: String,
    pub parameters: Vec<MethodField<'a>>,
    pub variant: &'a String,
    pub arguments: Vec<&'a String>,
}

/// The declaration of a querier's method for one query.
#[derive(Debug)]
pub struct QuerierDeclaration<'a> {
    pub name: String,
    pub parameters: Vec<MethodField<'a>>,
    pub return_type: Option<&'a String>,
}

/// A querier's method for one query: it builds the query with the variant's
/// constructor, found under `module` where one is given, and sends it to the
/// contract.
#[derive(Debug)]
pub struct QuerierMethod<'a> {
    pub name: String,
    pub parameters: Vec<MethodField<'a>>,
    pub return_type: Option<&'a String>,
    pub module: Option<&'a String>,
    pub arguments: Vec<&'a String>,
}

/// The name that a dispatch leg binds the field at place `k` to.
pub open spec fn arg_name(k: int) -> Seq<char> {
    "field"@ + decimal((k + 1) as nat)
}

/// The response type of an operation: the one its attribute names, else the
/// one its result gives. Only a query has one.
pub open spec fn response<'a>(sig: &'a Signature, attr: &'a MsgAttr) -> Option<&'a String> {
    match attr {
        MsgAttr::Query { resp_type: Some(named) } => Some(&named),
        MsgAttr::Query { resp_type: None } => response_in(&sig.output),
        _ => None,
    }
}

impl<'a> VariantDecl<'a> {
    /// Whether this is the declaration of `variant`: its tag and fields, and
    /// for a query its response type.
    pub open spec fn declares(&self, variant: MsgVariant) -> bool {
        &&& self.name == &variant.name
        &&& self.fields@ == decls_of(variant.fields@)
        &&& self.response == if variant.msg_type == MsgType::Query {
            variant.return_type
        } else {
            None
        }
    }
}

impl<'a> DispatchLeg<'a> {
    /// Whether this is the leg that matches `variant`, binds its fields to
    /// `field1`, `field2` and so on, and calls the method it was made of.
    pub open spec fn handles(&self, variant: MsgVariant, kind: LegKind) -> bool {
        &&& self.variant == &variant.name
        &&& self.fields@ == names_of(variant.fields@)
        &&& self.args.deep_view() == Seq::new(variant.fields@.len(), |k: int| arg_name(k))
        &&& self.function_name == variant.function_name
        &&& self.kind == kind
    }
}

impl<'a> Constructor<'a> {
    /// Whether this is the constructor of `variant`: named by its wire name,
    /// with its fields as parameters.
    pub open spec fn constructs(&self, variant: MsgVariant) -> bool {
        &&& self.method_name@ == variant.wire()
        &&& self.parameters@ == params_of(variant.fields@)
        &&& self.variant == &variant.name
        &&& self.arguments@ == names_of(variant.fields@)
    }
}

impl<'a> QuerierMethod<'a> {
    /// Whether this is the method that sends the query `variant`, building
    /// it under `module`.
    pub open spec fn sends(&self, variant: MsgVariant, module: Option<&String>) -> bool {
        &&& self.name@ == variant.wire()
        &&& self.parameters@ == params_of(variant.fields@)
        &&& self.return_type == variant.return_type
        &&& self.module == module
        &&& self.arguments@ == names_of(variant.fields@)
    }
}

impl<'a> QuerierDeclaration<'a> {
    /// Whether this declares the method that sends the query `variant`.
    pub open spec fn declares(&self, variant: MsgVariant) -> bool {
        &&& self.name@ == variant.wire()
        &&& self.parameters@ == params_of(variant.fields@)
        &&& self.return_type == variant.return_type
    }
}

/// Who declares the operations of a message set.
#[derive(Clone, Copy, PartialEq, Eq, Structural, Debug)]
pub enum Owner {
    /// An interface, which may declare executions and queries.
    Interface,
    /// A contract, which may declare operations of every category.
    Contract,
}

/// The kind of leg that dispatches a category in a message set of the owner.
/// Executions and queries have one; so have the privileged operations of a
/// contract, which are called as executions are. Instantiation, migration and
/// replies are not dispatched by a message set: a contract has one of each.
pub open spec fn leg_kind(owner: Owner, msg_type: MsgType) -> Option<LegKind> {
    match msg_type {
        MsgType::Exec => Some(LegKind::Exec),
        MsgType::Query => Some(LegKind::Query),
        MsgType::Sudo => if owner == Owner::Contract {
            Some(LegKind::Exec)
        } else {
            None
        },
        _ => None,
    }
}

/// The error for a variant of a category that a message set of the owner
/// does not dispatch.
pub open spec fn refusal(owner: Owner, variant: String) -> BuildError {
    match owner {
        Owner::Interface => BuildError::Unsupported { variant },
        Owner::Contract => BuildError::NotDispatched { variant },
    }
}

impl<'a> MsgVariant<'a> {
    /// Why no variant can be made of a method, if so: a parameter that
    /// declares no field, or a query without a response type.
    pub open spec fn failure(sig: &Signature, attr: &MsgAttr) -> Option<BuildError> {
        match first_bad(sig) {
            Some(p) => Some(BuildError::Parameter { method: sig.ident, position: p as usize }),
            None => if attr is Query && response(sig, attr) is None {
                Some(BuildError::Response { method: sig.ident })
            } else {
                None
            },
        }
    }

    /// Whether this is the variant of the method `sig` with the attribute
    /// `attr`.
    pub open spec fn built_from(&self, sig: &Signature, attr: &MsgAttr) -> bool {
        &&& self.name@ == upper_camel_case(sig.ident@)
        &&& self.function_name == &sig.ident
        &&& self.fields@ == fields_of(sig)
        &&& self.return_type == response(sig, attr)
        &&& self.msg_type == attr.msg_type()
    }

    /// The variant's name on the wire: its tag in snake case. It is the
    /// variant that is renamed on the wire, so the name is spelled from the
    /// tag, not from the method's name a second time.
    pub open spec fn wire(&self) -> Seq<char> {
        snake_case(self.name@)
    }

    /// Makes the variant of a method: the tag is the method's name in upper
    /// camel case, the fields are its parameters after the receiver and the
    /// context, and a query gets its response type. The generic parameters
    /// that the types of the fields mention are marked.
    pub fn new(sig: &'a Signature, generics_checker: &mut CheckGenerics, msg_attr: &'a MsgAttr) -> (variant:
        Result<MsgVariant<'a>, BuildError>)
        requires
            old(generics_checker).wf(),
        ensures
            final(generics_checker).wf(),
            final(generics_checker).generics() == old(generics_checker).generics(),
            match variant {
                Ok(variant) => {
                    &&& Self::failure(sig, msg_attr) is None
                    &&& variant.built_from(sig, msg_attr)
                    &&& final(generics_checker).marks() == marked(
                        old(generics_checker).generics(),
                        old(generics_checker).marks(),
                        idents_of(parameters(sig)),
                    )
                },
                Err(e) => Self::failure(sig, msg_attr) == Some(e),
            },
    {
        let function_name = &sig.ident;
        let name = respell(function_name, Spelling::UpperCamel);
        let fields = match process_fields(sig, generics_checker) {
            Ok(fields) => fields,
            Err(e) => {
                return Err(e);
            },
        };
        let msg_type = msg_attr.msg_type();
        let return_type = match msg_attr {
            MsgAttr::Query { resp_type } => {
                let found = match resp_type {
                    Some(named) => Some(named),
                    None => extract_return_type(&sig.output),
                };
                if found.is_none() {
                    return Err(BuildError::Response { method: sig.ident.clone() });
                }
                found
            },
            _ => None,
        };
        Ok(MsgVariant { name, function_name, fields, return_type, msg_type })
    }

    /// Computes the variant's name on the wire.
    pub fn wire_name(&self) -> (name: String)
        ensures
            name@ == self.wire(),
    {
        respell(&self.name, Spelling::Snake)
    }

    /// The variant's declaration. That of a query is annotated with its
    /// response type.
    pub fn emit<'b>(&'b self) -> (decl: VariantDecl<'b>)
        ensures
            decl.declares(*self),
    {
        let fields = emit_fields(&self.fields);
        let response = if self.msg_type == MsgType::Query {
            self.return_type
        } else {
            None
        };
        VariantDecl { name: &self.name, fields, response }
    }

    /// The leg of an interface's dispatch that matches this variant: it binds
    /// the fields to `field1`, `field2` and so on, and calls the method that
    /// the variant was made of with the context and those, in order. Only an
    /// execution or a query can be dispatched by the message set of an
    /// interface.
    pub fn emit_dispatch_leg<'b>(&'b self, msg_type: MsgType) -> (leg: Result<
        DispatchLeg<'b>,
        BuildError,
    >)
        ensures
            match leg_kind(Owner::Interface, msg_type) {
                Some(kind) => leg matches Ok(leg) && leg.handles(*self, kind),
                None => leg == Err::<DispatchLeg<'b>, BuildError>(
                    BuildError::Unsupported { variant: self.name },
                ),
            },
    {
        self.emit_leg(Owner::Interface, msg_type)
    }

    /// The leg of a dispatch that matches this variant, in a message set of
    /// the given owner: it binds the fields to `field1`, `field2` and so on,
    /// and calls the method that the variant was made of with the context and
    /// those, in order. A category that the owner's message sets do not
    /// dispatch is an error, which names the variant.
    pub fn emit_leg<'b>(&'b self, owner: Owner, msg_type: MsgType) -> (leg: Result<
        DispatchLeg<'b>,
        BuildError,
    >)
        ensures
            match leg_kind(owner, msg_type) {
                Some(kind) => leg matches Ok(leg) && leg.handles(*self, kind),
                None => leg == Err::<DispatchLeg<'b>, BuildError>(refusal(owner, self.name)),
            },
    {
        let kind = match msg_type {
            MsgType::Exec => LegKind::Exec,
            MsgType::Query => LegKind::Query,
            MsgType::Sudo if owner == Owner::Contract => LegKind::Exec,
            _ => {
                return Err(
                    match owner {
                        Owner::Interface => BuildError::Unsupported { variant: self.name.clone() },
                        Owner::Contract => BuildError::NotDispatched { variant: self.name.clone() },
                    },
                );
            },
        };
        let fields = field_names(&self.fields);
        let mut args: Vec<String> = Vec::new();
        let mut i: usize = 0;
        while i < self.fields.len()
            invariant
                i <= self.fields.len(),
                args@.len() == i,
                args.deep_view() == Seq::new(i as nat, |k: int| arg_name(k)),
            decreases self.fields.len() - i,
        {
            let number = decimal_text(i + 1);
            let ghost before = args;
            args.push(text("field").concat(number.as_str()));
            proof {
                assert forall|k: int| 0 <= k < i + 1 implies args.deep_view()[k] == arg_name(k) by {
                    if k < i {
                        assert(args@[k] == before@[k]);
                        assert(before.deep_view()[k] == before@[k]@);
                    }
                }
                assert(args.deep_view() =~= Seq::new((i + 1) as nat, |k: int| arg_name(k)));
            }
            i += 1;
        }
        Ok(DispatchLeg { variant: &self.name, fields, args, function_name: self.function_name, kind })
    }

    /// The variant's constructor, named by the wire name.
    pub fn emit_variants_constructors<'b>(&'b self) -> (constructor: Constructor<'b>)
        ensures
            constructor.constructs(*self),
    {
        Constructor {
            method_name: self.wire_name(),
            parameters: emit_method_fields(&self.fields),
            variant: &self.name,
            arguments: field_names(&self.fields),
        }
    }

    /// The method of a querier that sends this query.
    pub fn emit_querier_impl<'b>(&'b self, trait_module: Option<&'b String>) -> (method:
        QuerierMethod<'b>)
        ensures
            method.sends(*self, trait_module),
    {
        QuerierMethod {
            name: self.wire_name(),
            parameters: emit_method_fields(&self.fields),
            return_type: self.return_type,
            module: trait_module,
            arguments: field_names(&self.fields),
        }
    }

    /// The declaration of the method of a querier that sends this query.
    pub fn emit_querier_declaration<'b>(&'b self) -> (declaration: QuerierDeclaration<'b>)
        ensures
            declaration.declares(*self),
    {
        QuerierDeclaration {
            name: self.wire_name(),
            parameters: emit_method_fields(&self.fields),
            return_type: self.return_type,
        }
    }
}

} // verus!
