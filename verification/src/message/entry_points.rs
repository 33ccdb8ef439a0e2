//! The entry points of a contract: the functions that the host calls, one
//! for each category, unless the author has put his own in its place.

use crate::error::BuildError;
use crate::message::variant::MsgVariant;
use crate::message::variants::{collected, failure_of, first_failing, MsgVariants};
use crate::seqs::{first_where, lemma_first_where_is, lemma_first_where_none};
use crate::source::{
    find_error, first_error, Attribute, Custom, Extension, ItemImpl, MsgType, OverrideEntryPoint,
    Type,
};
use vstd::prelude::*;

verus! {

/// The error type of a contract's entry points.
#[derive(Clone, Copy, Debug)]
pub enum ErrorName<'a> {
    /// The standard error, which stands where the contract names none.
    Std,
    /// The type that the contract names.
    Named(&'a Type),
}

/// The default entry point of one category: it makes the contract, decodes
/// the category's message from what the host hands over, and dispatches it
/// with a context made of the host's parameters. The message is the glue
/// message of the category for executions, queries and privileged
/// operations, and the message of the one operation for instantiation and
/// migration.
#[derive(Debug)]
pub struct EntryPoint<'a> {
    pub msg_type: MsgType,
    pub custom_msg: Extension<'a>,
    pub custom_query: Extension<'a>,
    /// The contract's type, without generic arguments.
    pub name: &'a String,
    pub error: ErrorName<'a>,
}

/// The entry point for replies: it makes the contract and calls the
/// contract's one handler of replies.
#[derive(Debug)]
pub struct ReplyEntryPoint<'a> {
    pub custom_msg: Extension<'a>,
    pub custom_query: Extension<'a>,
    pub name: &'a String,
    pub error: ErrorName<'a>,
    /// The handler.
    pub reply: &'a String,
}

/// The module of entry points that is generated for a contract.
#[derive(Debug)]
pub struct EntryPointsDecl<'a> {
    /// The default entry points of instantiation, execution, query,
    /// migration and the privileged operations, in this order, without those
    /// that are overridden.
    pub entry_points: Vec<EntryPoint<'a>>,
    /// The entry point for replies, where the contract handles replies.
    pub reply: Option<ReplyEntryPoint<'a>>,
}

impl OverrideEntryPoint {
    /// The default entry point of a category.
    pub fn emit_default_entry_point<'a>(
        custom_msg: Extension<'a>,
        custom_query: Extension<'a>,
        name: &'a String,
        error: ErrorName<'a>,
        msg_type: MsgType,
    ) -> (entry_point: EntryPoint<'a>)
        ensures
            entry_point == (EntryPoint { msg_type, custom_msg, custom_query, name, error }),
    {
        EntryPoint { msg_type, custom_msg, custom_query, name, error }
    }
}

/// Whether an attribute overrides an entry point but cannot be read.
pub open spec fn bad_override(attr: Attribute) -> bool {
    attr matches Attribute::OverrideEntryPoint(Err(_))
}

/// The overrides among the first `n` attributes, in order.
pub open spec fn overrides<'a>(attrs: Seq<Attribute>, n: int) -> Seq<&'a OverrideEntryPoint>
    decreases n,
{
    if n <= 0 {
        Seq::empty()
    } else {
        match attrs[n - 1] {
            Attribute::OverrideEntryPoint(Ok(entry)) => overrides(attrs, n - 1).push(&entry),
            _ => overrides(attrs, n - 1),
        }
    }
}

/// The entry points that the author of a contract has put in place of the
/// default ones.
#[derive(Debug)]
pub struct OverrideEntryPoints<'a>(pub Vec<&'a OverrideEntryPoint>);

impl<'a> OverrideEntryPoints<'a> {
    /// Gathers the overrides among the attributes of a contract, in order.
    /// One that cannot be read is an error.
    pub fn new(attrs: &'a Vec<Attribute>) -> (entries: Result<Self, BuildError>)
        ensures
            match entries {
                Ok(entries) => {
                    &&& first_where(attrs@, |a: Attribute| bad_override(a)) is None
                    &&& entries.0@ == overrides(attrs@, attrs@.len() as int)
                },
                Err(e) => {
                    &&& first_where(attrs@, |a: Attribute| bad_override(a)) matches Some(i)
                    &&& e == (BuildError::ImplAttribute {
                        reason: attrs@[i]->OverrideEntryPoint_0->Err_0,
                    })
                },
            },
    {
        let ghost bad = |a: Attribute| bad_override(a);
        let mut entries: Vec<&'a OverrideEntryPoint> = Vec::new();
        let mut i: usize = 0;
        while i < attrs.len()
            invariant
                i <= attrs.len(),
                bad == (|a: Attribute| bad_override(a)),
                forall|k: int| 0 <= k < i ==> !bad(#[trigger] attrs@[k]),
                entries@ == overrides(attrs@, i as int),
            decreases attrs.len() - i,
        {
            if let Attribute::OverrideEntryPoint(read) = &attrs[i] {
                match read {
                    Ok(entry) => {
                        entries.push(entry);
                    },
                    Err(reason) => {
                        proof {
                            lemma_first_where_is(attrs@, bad, i as int);
                        }
                        return Err(BuildError::ImplAttribute { reason: reason.clone() });
                    },
                }
            }
            i += 1;
        }
        proof {
            lemma_first_where_none(attrs@, bad);
        }
        Ok(OverrideEntryPoints(entries))
    }

    /// The place of the first override of a category.
    pub open spec fn place(&self, ty: MsgType) -> Option<int> {
        first_where(self.0@, |entry: &OverrideEntryPoint| entry.msg_type == ty)
    }

    /// The override of a category, if the author has given one.
    pub fn get_entry_point(&self, ty: MsgType) -> (entry: Option<&'a OverrideEntryPoint>)
        ensures
            match self.place(ty) {
                Some(i) => entry == Some(self.0@[i]),
                None => entry is None,
            },
    {
        let ghost of_type = |entry: &OverrideEntryPoint| entry.msg_type == ty;
        let mut i: usize = 0;
        while i < self.0.len()
            invariant
                i <= self.0.len(),
                of_type == (|entry: &OverrideEntryPoint| entry.msg_type == ty),
                forall|k: int| 0 <= k < i ==> !of_type(#[trigger] self.0@[k]),
            decreases self.0.len() - i,
        {
            if self.0[i].msg_type == ty {
                proof {
                    lemma_first_where_is(self.0@, of_type, i as int);
                }
                return Some(self.0[i]);
            }
            i += 1;
        }
        proof {
            lemma_first_where_none(self.0@, of_type);
        }
        None
    }
}

/// The place of the first attribute that declares custom types.
pub open spec fn first_custom(attrs: Seq<Attribute>) -> Option<int> {
    first_where(attrs, |a: Attribute| a is Custom)
}

/// Finds the first attribute that declares custom types, and gives what it
/// was read as.
pub fn find_custom<'a>(attrs: &'a Vec<Attribute>) -> (found: Option<&'a Result<Custom, String>>)
    ensures
        match first_custom(attrs@) {
            Some(i) => found == Some(&attrs@[i]->Custom_0),
            None => found is None,
        },
{
    let ghost is_custom = |a: Attribute| a is Custom;
    let mut i: usize = 0;
    while i < attrs.len()
        invariant
            i <= attrs.len(),
            is_custom == (|a: Attribute| a is Custom),
            forall|k: int| 0 <= k < i ==> !is_custom(#[trigger] attrs@[k]),
        decreases attrs.len() - i,
    {
        if let Attribute::Custom(read) = &attrs[i] {
            proof {
                lemma_first_where_is(attrs@, is_custom, i as int);
            }
            return Some(read);
        }
        i += 1;
    }
    proof {
        lemma_first_where_none(attrs@, is_custom);
    }
    None
}

/// The custom types that the attributes of an owner declare: those of the
/// first attribute that declares any, nothing where there is none. An
/// attribute that cannot be read is an error.
pub fn declared_custom<'a>(attrs: &'a Vec<Attribute>) -> (custom: Result<
    Option<&'a Custom>,
    BuildError,
>)
    ensures
        match first_custom(attrs@) {
            Some(i) => match attrs@[i]->Custom_0 {
                Ok(declared) => custom == Ok::<Option<&Custom>, BuildError>(Some(&declared)),
                Err(reason) => custom == Err::<Option<&Custom>, BuildError>(
                    BuildError::ImplAttribute { reason },
                ),
            },
            None => custom == Ok::<Option<&Custom>, BuildError>(None),
        },
{
    match find_custom(attrs) {
        Some(Ok(custom)) => Ok(Some(custom)),
        Some(Err(reason)) => Err(BuildError::ImplAttribute { reason: reason.clone() }),
        None => Ok(None),
    }
}

/// The place of the first variant of a category.
pub open spec fn first_of_type(variants: Seq<MsgVariant>, ty: MsgType) -> Option<int> {
    first_where(variants, |v: MsgVariant| v.msg_type == ty)
}

/// Finds the first variant of a category.
pub fn find_of_type<'a, 'b>(variants: &'b Vec<MsgVariant<'a>>, ty: MsgType) -> (found: Option<
    &'b MsgVariant<'a>,
>)
    ensures
        match first_of_type(variants@, ty) {
            Some(i) => found == Some(&variants@[i]),
            None => found is None,
        },
{
    let ghost of_type = |v: MsgVariant| v.msg_type == ty;
    let mut i: usize = 0;
    while i < variants.len()
        invariant
            i <= variants.len(),
            of_type == (|v: MsgVariant| v.msg_type == ty),
            forall|k: int| 0 <= k < i ==> !of_type(#[trigger] variants@[k]),
        decreases variants.len() - i,
    {
        if variants[i].msg_type == ty {
            proof {
                lemma_first_where_is(variants@, of_type, i as int);
            }
            return Some(&variants[i]);
        }
        i += 1;
    }
    proof {
        lemma_first_where_none(variants@, of_type);
    }
    None
}

/// What the entry points of a contract are made of.
#[derive(Debug)]
pub struct EntryPoints<'a> {
    /// The contract's type, without generic arguments.
    pub name: &'a String,
    pub error: ErrorName<'a>,
    /// The custom types that the contract declares, if it declares any.
    pub custom: Option<&'a Custom>,
    pub override_entry_points: OverrideEntryPoints<'a>,
    pub variants: MsgVariants<'a>,
}

impl<'a> EntryPoints<'a> {
    /// Whether the error `e` is why a contract has no entry points: the
    /// first override that cannot be read; else the `error` attribute, if it
    /// cannot be read; else the first method that stops the collection of
    /// the variants; else the attribute of the custom types, if it cannot be
    /// read.
    pub open spec fn refused(source: &ItemImpl, e: BuildError) -> bool {
        let attrs = source.attrs@;
        match first_where(attrs, |a: Attribute| bad_override(a)) {
            Some(i) => e == (BuildError::ImplAttribute {
                reason: attrs[i]->OverrideEntryPoint_0->Err_0,
            }),
            None => if first_error(attrs) matches Some(i) && attrs[i]->Error_0 is Err {
                e == (BuildError::ImplAttribute {
                    reason: attrs[first_error(attrs)->0]->Error_0->Err_0,
                })
            } else {
                match first_failing(source.items@, None) {
                    Some(i) => failure_of(source.items@[i], None) == Some(e),
                    None => {
                        &&& first_custom(attrs) matches Some(i)
                        &&& attrs[i]->Custom_0 matches Err(reason)
                        &&& e == (BuildError::ImplAttribute { reason })
                    },
                }
            },
        }
    }

    /// Whether these are the makings of the entry points of the contract
    /// `source`.
    pub open spec fn made_of(&self, source: &ItemImpl) -> bool {
        let attrs = source.attrs@;
        &&& first_where(attrs, |a: Attribute| bad_override(a)) is None
        &&& self.name == &source.self_ty.bare
        &&& self.error == match first_error(attrs) {
            Some(i) => ErrorName::Named(&attrs[i]->Error_0->Ok_0),
            None => ErrorName::Std,
        }
        &&& first_error(attrs) matches Some(i) ==> attrs[i]->Error_0 is Ok
        &&& self.custom == match first_custom(attrs) {
            Some(i) => Some(&attrs[i]->Custom_0->Ok_0),
            None => None,
        }
        &&& first_custom(attrs) matches Some(i) ==> attrs[i]->Custom_0 is Ok
        &&& self.override_entry_points.0@ == overrides(attrs, attrs.len() as int)
        &&& first_failing(source.items@, None) is None
        &&& collected(self.variants.0@, source.items@, None)
    }

    /// Reads off a contract what its entry points are made of: its type, its
    /// error type, its custom types, the overrides, and all its operations.
    pub fn new(source: &'a ItemImpl) -> (entry_points: Result<Self, BuildError>)
        ensures
            match entry_points {
                Ok(entry_points) => entry_points.made_of(source),
                Err(e) => Self::refused(source, e),
            },
    {
        let name = &source.self_ty.bare;
        let override_entry_points = match OverrideEntryPoints::new(&source.attrs) {
            Ok(entries) => entries,
            Err(e) => {
                return Err(e);
            },
        };
        let error = match find_error(&source.attrs) {
            Some(Ok(error)) => ErrorName::Named(error),
            Some(Err(reason)) => {
                return Err(BuildError::ImplAttribute { reason: reason.clone() });
            },
            None => ErrorName::Std,
        };
        let variants = match MsgVariants::new(&source.items, &source.generics.params) {
            Ok(variants) => variants,
            Err(e) => {
                return Err(e);
            },
        };
        let custom = match declared_custom(&source.attrs) {
            Ok(custom) => custom,
            Err(e) => {
                return Err(e);
            },
        };
        Ok(EntryPoints { name, error, custom, override_entry_points, variants })
    }

    /// The custom message type in force.
    pub open spec fn custom_msg(&self) -> Extension<'a> {
        match self.custom {
            Some(custom) => custom.msg_or_default(),
            None => Extension::Empty,
        }
    }

    /// The custom query type in force.
    pub open spec fn custom_query(&self) -> Extension<'a> {
        match self.custom {
            Some(custom) => custom.query_or_default(),
            None => Extension::Empty,
        }
    }

    /// Whether the author has overridden the entry point of a category.
    pub open spec fn overridden(&self, ty: MsgType) -> bool {
        self.override_entry_points.place(ty) is Some
    }

    /// The default entry point of a category.
    pub open spec fn default_of(&self, ty: MsgType) -> EntryPoint {
        EntryPoint {
            msg_type: ty,
            custom_msg: self.custom_msg(),
            custom_query: self.custom_query(),
            name: self.name,
            error: self.error,
        }
    }

    /// The default entry point of a category, unless it is overridden.
    pub open spec fn wired(&self, ty: MsgType) -> Seq<EntryPoint> {
        if self.overridden(ty) {
            Seq::empty()
        } else {
            seq![self.default_of(ty)]
        }
    }

    /// Whether `decl` holds the entry points of this contract. Every category
    /// but that of replies has its default entry point unless the author has
    /// overridden it: instantiation, execution, query, migration and the
    /// privileged operations, in this order. That of replies is wired only
    /// if the contract declares a handler of replies, which it then calls.
    pub open spec fn emits(&self, decl: EntryPointsDecl) -> bool {
        &&& decl.entry_points@ == self.wired(MsgType::Instantiate) + self.wired(MsgType::Exec)
            + self.wired(MsgType::Query) + self.wired(MsgType::Migrate) + self.wired(MsgType::Sudo)
        &&& decl.reply == if self.overridden(MsgType::Reply) {
            None
        } else {
            match first_of_type(self.variants.0@, MsgType::Reply) {
                Some(i) => Some(
                    ReplyEntryPoint {
                        custom_msg: self.custom_msg(),
                        custom_query: self.custom_query(),
                        name: self.name,
                        error: self.error,
                        reply: self.variants.0@[i].function_name,
                    },
                ),
                None => None,
            }
        }
    }

    /// Among the emitted entry points, the default of a category other than
    /// that of replies is there exactly when the category is not overridden,
    /// and no other entry point is of that category.
    pub proof fn lemma_default_wired(&self, decl: EntryPointsDecl, ty: MsgType)
        requires
            self.emits(decl),
            ty != MsgType::Reply,
        ensures
            !self.overridden(ty) <==> decl.entry_points@.contains(self.default_of(ty)),
            forall|k: int|
                0 <= k < decl.entry_points@.len() && (#[trigger] decl.entry_points@[k]).msg_type == ty
                    ==> decl.entry_points@[k] == self.default_of(ty) && !self.overridden(ty),
    {
        let all = decl.entry_points@;
        let a = self.wired(MsgType::Instantiate);
        let b = self.wired(MsgType::Exec);
        let c = self.wired(MsgType::Query);
        let d = self.wired(MsgType::Migrate);
        let e = self.wired(MsgType::Sudo);
        assert(all == a + b + c + d + e);
        if !self.overridden(ty) {
            let at = if ty == MsgType::Instantiate {
                0
            } else if ty == MsgType::Exec {
                a.len() as int
            } else if ty == MsgType::Query {
                (a.len() + b.len()) as int
            } else if ty == MsgType::Migrate {
                (a.len() + b.len() + c.len()) as int
            } else {
                (a.len() + b.len() + c.len() + d.len()) as int
            };
            assert(all[at] == self.default_of(ty));
        }
        assert forall|k: int| 0 <= k < all.len() && (#[trigger] all[k]).msg_type == ty implies all[k]
            == self.default_of(ty) && !self.overridden(ty) by {
            if k < a.len() {
                assert(all[k] == a[k]);
            } else if k < a.len() + b.len() {
                assert(all[k] == b[k - a.len()]);
            } else if k < a.len() + b.len() + c.len() {
                assert(all[k] == c[k - a.len() - b.len()]);
            } else if k < a.len() + b.len() + c.len() + d.len() {
                assert(all[k] == d[k - a.len() - b.len() - c.len()]);
            } else {
                assert(all[k] == e[k - a.len() - b.len() - c.len() - d.len()]);
            }
        }
        if decl.entry_points@.contains(self.default_of(ty)) {
            let k = choose|k: int| 0 <= k < all.len() && all[k] == self.default_of(ty);
            assert(all[k].msg_type == ty);
        }
    }

    /// Adds the default entry point of a category, unless the author has
    /// overridden it.
    fn wire<'b>(&'b self, ty: MsgType, entry_points: &mut Vec<EntryPoint<'b>>)
        ensures
            final(entry_points)@ == old(entry_points)@ + self.wired(ty),
    {
        if self.override_entry_points.get_entry_point(ty).is_none() {
            let (custom_msg, custom_query) = match self.custom {
                Some(custom) => (custom.msg_or_default(), custom.query_or_default()),
                None => (Extension::Empty, Extension::Empty),
            };
            let ghost before = entry_points@;
            entry_points.push(
                OverrideEntryPoint::emit_default_entry_point(
                    custom_msg,
                    custom_query,
                    self.name,
                    self.error,
                    ty,
                ),
            );
            proof {
                assert(entry_points@ =~= before + self.wired(ty));
            }
        } else {
            proof {
                assert(entry_points@ =~= entry_points@ + self.wired(ty));
            }
        }
    }

    /// The entry points that are generated for the contract.
    pub fn emit<'b>(&'b self) -> (decl: EntryPointsDecl<'b>)
        ensures
            self.emits(decl),
    {
        let mut entry_points: Vec<EntryPoint<'b>> = Vec::new();
        proof {
            assert(entry_points@ + self.wired(MsgType::Instantiate) =~= self.wired(
                MsgType::Instantiate,
            ));
        }
        self.wire(MsgType::Instantiate, &mut entry_points);
        self.wire(MsgType::Exec, &mut entry_points);
        self.wire(MsgType::Query, &mut entry_points);
        self.wire(MsgType::Migrate, &mut entry_points);
        self.wire(MsgType::Sudo, &mut entry_points);
        let reply_ep = if self.override_entry_points.get_entry_point(MsgType::Reply).is_some() {
            None
        } else {
            match find_of_type(&self.variants.0, MsgType::Reply) {
                Some(variant) => {
                    let (custom_msg, custom_query) = match self.custom {
                        Some(custom) => (custom.msg_or_default(), custom.query_or_default()),
                        None => (Extension::Empty, Extension::Empty),
                    };
                    Some(
                        ReplyEntryPoint {
                            custom_msg,
                            custom_query,
                            name: self.name,
                            error: self.error,
                            reply: variant.function_name,
                        },
                    )
                },
                None => None,
            }
        };
        EntryPointsDecl { entry_points, reply: reply_ep }
    }
}

} // verus!
