//! The glue message of a contract: one message for a category, with an arm
//! for each attached interface and an arm for the contract's own message set.

use crate::error::BuildError;
use crate::message::composite::{
    lemma_tabulates, lemma_tabulates_unambiguous, sets_of, tables, Composite,
};
use crate::message::enum_message::{ContractEnumMessage, EnumMessage};
use crate::message::variant::{leg_kind, Owner};
use crate::resolve::{collides, intersection, unambiguous};
use crate::source::{CtxType, Custom, DispatchType, ErrorType, ItemImpl, MsgType, Type};
use crate::text::text;
use vstd::prelude::*;
use vstd::string::StringExecFns;

verus! {

/// What an interface says of the custom types of the contract it is attached
/// to.
#[derive(Clone, Copy, Debug)]
pub struct Customs {
    /// The interface answers with plain responses, which the contract
    /// converts to its own.
    pub has_msg: bool,
    /// The interface takes a context without custom queries, which the
    /// contract narrows its own to.
    pub has_query: bool,
}

impl Customs {
    /// Whether an interface that says this is called with a narrowed
    /// context, for the category: executions and queries are.
    pub open spec fn spec_narrows(self, msg_ty: MsgType) -> bool {
        self.has_query && (msg_ty == MsgType::Exec || msg_ty == MsgType::Query)
    }

    /// Whether an interface that says this is called with a narrowed
    /// context, for the category.
    #[verifier::when_used_as_spec(spec_narrows)]
    pub fn narrows(self, msg_ty: MsgType) -> (narrow: bool)
        ensures
            narrow == self.spec_narrows(msg_ty),
    {
        self.has_query && (msg_ty == MsgType::Exec || msg_ty == MsgType::Query)
    }

    /// Whether the response of an interface that says this is converted to
    /// the contract's, for the category: that of executions is.
    pub open spec fn spec_converts(self, msg_ty: MsgType) -> bool {
        self.has_msg && msg_ty == MsgType::Exec
    }

    /// Whether the response of an interface that says this is converted to
    /// the contract's, for the category.
    #[verifier::when_used_as_spec(spec_converts)]
    pub fn converts(self, msg_ty: MsgType) -> (convert: bool)
        ensures
            convert == self.spec_converts(msg_ty),
    {
        self.has_msg && msg_ty == MsgType::Exec
    }
}

/// An interface that a contract attaches: where it is found, the name of its
/// arm in the glue message, and what it says of the contract's custom types.
#[derive(Debug)]
pub struct ContractMessageAttr<'a> {
    pub module: &'a String,
    pub variant: &'a String,
    pub customs: Customs,
}

/// The interfaces that a contract attaches, in the order of their
/// declaration.
#[derive(Debug)]
pub struct Interfaces<'a> {
    pub interfaces: Vec<ContractMessageAttr<'a>>,
}

impl<'a> Interfaces<'a> {
    /// The attached interfaces.
    pub fn interfaces(&self) -> (all: &Vec<ContractMessageAttr<'a>>)
        ensures
            all == &self.interfaces,
    {
        &self.interfaces
    }
}

/// The message of a contract for one category: an arm for each attached
/// interface, in the order of their declaration, and after them the arm of
/// the contract's own message set. Interfaces declare executions and queries
/// only, so for any other category the contract's own arm stands alone.
#[derive(Debug)]
pub struct GlueMessage<'a> {
    pub name: &'a String,
    pub contract: &'a Type,
    pub msg_ty: MsgType,
    pub error: &'a Type,
    pub custom: &'a Custom,
    pub interfaces: &'a Interfaces<'a>,
}

/// An arm of a glue message as it is declared: its name, and the module of
/// the message set it wraps.
#[derive(Debug)]
pub struct GlueVariant<'a> {
    pub variant: &'a String,
    pub module: &'a String,
}

/// The leg of a glue message's dispatch for the arm of an interface.
#[derive(Debug)]
pub struct GlueArm<'a> {
    pub variant: &'a String,
    /// Whether the custom query type is erased from the context before the
    /// interface's dispatch is called.
    pub narrow_ctx: bool,
    /// Whether the interface's response is converted to the contract's.
    pub into_response: bool,
}

/// The enum that is generated for a glue message, with its dispatch.
#[derive(Debug)]
pub struct GlueDecl<'a> {
    /// The enum's name: `Contract` followed by the name of the message.
    pub contract_name: String,
    pub name: &'a String,
    /// The contract's type without its generic arguments; it names the arm
    /// of the contract's own message set.
    pub contract: &'a String,
    /// The arms of the interfaces, in order.
    pub variants: Vec<GlueVariant<'a>>,
    /// The legs of the dispatch for the arms of the interfaces, in order.
    pub dispatch_arms: Vec<GlueArm<'a>>,
    pub ctx_type: CtxType<'a>,
    pub ret_type: DispatchType<'a>,
    /// Whether the enum gathers the response schemas of its arms; the glue
    /// message of queries does.
    pub response_schemas: bool,
}

impl<'a> GlueMessage<'a> {
    /// The interfaces that have an arm in this glue message: all that the
    /// contract attaches, for a category that an interface may declare; none
    /// for any other, which leaves the contract's own arm alone.
    pub open spec fn arms(&self) -> Seq<ContractMessageAttr<'a>> {
        if leg_kind(Owner::Interface, self.msg_ty) is Some {
            self.interfaces.interfaces@
        } else {
            Seq::empty()
        }
    }

    /// The number of interfaces that have an arm in this glue message.
    pub fn arm_count(&self) -> (count: usize)
        ensures
            count == self.arms().len(),
    {
        if self.msg_ty == MsgType::Exec || self.msg_ty == MsgType::Query {
            self.interfaces.interfaces.len()
        } else {
            0
        }
    }

    /// Whether the interface at place `k` is called with a narrowed context.
    pub open spec fn narrows(&self, k: int) -> bool {
        0 <= k < self.arms().len() && self.arms()[k].customs.narrows(self.msg_ty)
    }

    /// Whether the response of the interface at place `k` is converted.
    pub open spec fn converts(&self, k: int) -> bool {
        0 <= k < self.arms().len() && self.arms()[k].customs.converts(self.msg_ty)
    }

    /// The glue message of the contract `source` for the category `msg_ty`.
    pub fn new(
        name: &'a String,
        source: &'a ItemImpl,
        msg_ty: MsgType,
        error: &'a Type,
        custom: &'a Custom,
        interfaces: &'a Interfaces<'a>,
    ) -> (glue: Self)
        ensures
            glue.name == name,
            glue.contract == &source.self_ty,
            glue.msg_ty == msg_ty,
            glue.error == error,
            glue.custom == custom,
            glue.interfaces == interfaces,
    {
        GlueMessage { name, contract: &source.self_ty, msg_ty, error, custom, interfaces }
    }

    /// Whether `decl` is the enum generated for this glue message.
    pub open spec fn emits(&self, decl: GlueDecl) -> bool {
        let interfaces = self.arms();
        &&& decl.contract_name@ == "Contract"@ + self.name@
        &&& decl.name == self.name
        &&& decl.contract == &self.contract.bare
        &&& decl.variants@.len() == interfaces.len()
        &&& forall|k: int|
            0 <= k < interfaces.len() ==> #[trigger] decl.variants@[k] == (GlueVariant {
                variant: interfaces[k].variant,
                module: interfaces[k].module,
            })
        &&& decl.dispatch_arms@.len() == interfaces.len()
        &&& forall|k: int|
            0 <= k < interfaces.len() ==> #[trigger] decl.dispatch_arms@[k] == (GlueArm {
                variant: interfaces[k].variant,
                narrow_ctx: self.narrows(k),
                into_response: self.converts(k),
            })
        &&& decl.ctx_type == (CtxType {
            shape: self.msg_ty.ctx_shape(),
            query: self.custom.query_or_default(),
        })
        &&& decl.ret_type == self.msg_ty.result_type(
            self.custom.msg_or_default(),
            ErrorType::Named(self.error),
        )
        &&& decl.response_schemas == (self.name@ == "QueryMsg"@)
    }

    /// The enum of the glue message: an arm for each interface that has one,
    /// which wraps the interface's message set, and an arm for the contract's
    /// own; and a
    /// dispatch that hands a message to the dispatch of its arm, with the
    /// context narrowed and the response converted where the interface says
    /// so.
    pub fn emit<'b>(&'b self) -> (decl: GlueDecl<'b>)
        ensures
            self.emits(decl),
    {
        let interfaces = self.interfaces.interfaces();
        let mut variants: Vec<GlueVariant<'b>> = Vec::new();
        let mut dispatch_arms: Vec<GlueArm<'b>> = Vec::new();
        let n: usize = self.arm_count();
        let mut k: usize = 0;
        while k < n
            invariant
                k <= n,
                n == self.arms().len(),
                n <= interfaces@.len(),
                n > 0 ==> self.arms() == interfaces@,
                interfaces == &self.interfaces.interfaces,
                variants@.len() == k,
                dispatch_arms@.len() == k,
                forall|i: int|
                    0 <= i < k ==> #[trigger] variants@[i] == (GlueVariant {
                        variant: interfaces@[i].variant,
                        module: interfaces@[i].module,
                    }),
                forall|i: int|
                    0 <= i < k ==> #[trigger] dispatch_arms@[i] == (GlueArm {
                        variant: interfaces@[i].variant,
                        narrow_ctx: self.narrows(i),
                        into_response: self.converts(i),
                    }),
            decreases n - k,
        {
            let interface = &interfaces[k];
            variants.push(GlueVariant { variant: interface.variant, module: interface.module });
            let narrow_ctx = interface.customs.narrows(self.msg_ty);
            let into_response = interface.customs.converts(self.msg_ty);
            dispatch_arms.push(GlueArm { variant: interface.variant, narrow_ctx, into_response });
            k += 1;
        }
        let contract = &self.contract.bare;
        let contract_name = text("Contract").concat(self.name.as_str());
        let ctx_type = self.msg_ty.emit_ctx_type(self.custom.query_or_default());
        let ret_type = self.msg_ty.emit_result_type(
            self.custom.msg_or_default(),
            ErrorType::Named(self.error),
        );
        let response_schemas = *self.name == text("QueryMsg");
        GlueDecl {
            contract_name,
            name: self.name,
            contract,
            variants,
            dispatch_arms,
            ctx_type,
            ret_type,
            response_schemas,
        }
    }

    /// Whether the message sets can stand behind the arms of this glue
    /// message: there is one for each interface that has an arm, and no two
    /// of them,
    /// the contract's own included, share a wire name.
    pub open spec fn admits(&self, interfaces: Seq<&EnumMessage>, own: &ContractEnumMessage) -> bool {
        &&& interfaces.len() == self.arms().len()
        &&& unambiguous(tables(sets_of(interfaces, own)))
    }

    /// Puts the message sets behind the arms: that of each interface that
    /// has an arm, in the order of the interfaces, and the contract's own.
    /// The sets must share no wire name, or a payload could mean two
    /// messages: a name that two of them have is an error, which gives the
    /// name; so is a number of sets that is not the number of those arms.
    pub fn compose<'b>(
        &'b self,
        interfaces: Vec<&'b EnumMessage<'b>>,
        own: &'b ContractEnumMessage<'b>,
    ) -> (composite: Result<Composite<'b>, BuildError>)
        ensures
            composite is Ok <==> self.admits(interfaces@, own),
            match composite {
                Ok(composite) => {
                    &&& composite.message == self
                    &&& composite.interfaces@ == interfaces@
                    &&& composite.own == own
                },
                Err(e) => if interfaces@.len() != self.arms().len() {
                    e == (BuildError::Attached {
                        declared: self.arms().len() as usize,
                        given: interfaces.len(),
                    })
                } else {
                    e matches BuildError::Collision { name } && collides(
                        tables(sets_of(interfaces@, own)),
                        name@,
                    )
                },
            },
    {
        let declared: usize = self.arm_count();
        if interfaces.len() != declared {
            return Err(BuildError::Attached { declared, given: interfaces.len() });
        }
        let composite = Composite { message: self, interfaces, own };
        let messages = composite.messages();
        proof {
            lemma_tabulates_unambiguous(messages.deep_view(), composite.sets());
        }
        match intersection(&messages) {
            Some(name) => {
                proof {
                    lemma_tabulates(messages.deep_view(), composite.sets(), name@);
                }
                Err(BuildError::Collision { name })
            },
            None => Ok(composite),
        }
    }
}

} // verus!
