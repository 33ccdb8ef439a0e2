//! The ways in which compiling the messages of an owner can fail.

use crate::text::{decimal, decimal_text, lemma_occurs_at_end, lemma_occurs_in_longer, occurs_in, text};
use vstd::prelude::*;
use vstd::string::StringExecFns;

verus! {

/// A failure of compilation. Each is final: nothing is generated for an
/// owner that has one.
#[derive(Debug)]
pub enum BuildError {
    /// The `msg` attribute of a method cannot be read.
    Attribute {
        /// The method that carries the attribute.
        method: String,
        /// What is wrong with the attribute.
        reason: String,
    },
    /// An attribute of the impl block of a contract cannot be read.
    ImplAttribute {
        /// What is wrong with the attribute.
        reason: String,
    },
    /// A parameter of a method is `self` or a pattern, where a plain name is
    /// needed.
    Parameter {
        /// The method.
        method: String,
        /// The place of the parameter among those that follow the receiver
        /// and the context.
        position: usize,
    },
    /// A query neither names a response type nor returns a `Result` of one.
    Response {
        /// The method.
        method: String,
    },
    /// An operation of a category that only a contract may declare stands in
    /// the message set of an interface.
    Unsupported {
        /// The tag of the variant.
        variant: String,
    },
    /// An operation of instantiation, migration or reply stands in a message
    /// set of a contract: a contract has one handler of each, and no set.
    NotDispatched {
        /// The tag of the variant.
        variant: String,
    },
    /// Two operations of one owner have the same wire name.
    Duplicate {
        /// The wire name.
        name: String,
    },
    /// Two message sets that one contract combines claim the same wire name.
    Collision {
        /// The wire name.
        name: String,
    },
    /// The message sets put behind a glue message are not as many as the
    /// interfaces that the contract attaches.
    Attached {
        /// The number of attached interfaces.
        declared: usize,
        /// The number of message sets given.
        given: usize,
    },
    /// A contract declares no instantiation.
    Missing,
    /// A contract declares a second instantiation or migration.
    Ambiguous {
        /// The method that declares the second.
        method: String,
    },
    /// A message of a single operation was asked for a category that has
    /// none: only instantiation and migration have one.
    InvalidMessageType,
}

impl BuildError {
    /// The text of the error.
    pub open spec fn text_of(&self) -> Seq<char> {
        match self {
            BuildError::Attribute { method, reason } => method@ + ": "@ + reason@,
            BuildError::ImplAttribute { reason } => reason@,
            BuildError::Parameter { method, position } => method@
                + ": Expected argument name, pattern occurred at argument "@ + decimal(
                *position as nat,
            ),
            BuildError::Response { method } => method@
                + ": No response type. Name it in the attribute, or return a Result of it"@,
            BuildError::Unsupported { variant } => variant@
                + ": Instantiation, Reply, Migrate and Sudo messages not supported on traits, they should be defined on contracts directly"@,
            BuildError::NotDispatched { variant } => variant@
                + ": Instantiation, Migrate and Reply messages are not dispatched by a message set, a contract has one handler of each"@,
            BuildError::Duplicate { name } => "Two messages of one owner are named "@ + name@,
            BuildError::Collision { name } => "Message overlaps between interface and contract impl: "@
                + name@,
            BuildError::Attached { declared, given } => "Message sets given for "@ + decimal(
                *given as nat,
            ) + " interfaces, attached are "@ + decimal(*declared as nat),
            BuildError::Missing => "No instantiation message"@,
            BuildError::Ambiguous { method } => method@
                + ": More than one instantiation or migration message"@,
            BuildError::InvalidMessageType => "Invalid message type"@,
        }
    }

    /// Writes the text of the error.
    pub fn message(&self) -> (out: String)
        ensures
            out@ == self.text_of(),
    {
        match self {
            BuildError::Attribute { method, reason } => {
                let mut out = method.clone();
                out.append(": ");
                out.append(reason.as_str());
                out
            },
            BuildError::ImplAttribute { reason } => reason.clone(),
            BuildError::Parameter { method, position } => {
                let place = decimal_text(*position);
                let mut out = method.clone();
                out.append(": Expected argument name, pattern occurred at argument ");
                out.append(place.as_str());
                out
            },
            BuildError::Response { method } => method.clone().concat(
                ": No response type. Name it in the attribute, or return a Result of it",
            ),
            BuildError::Unsupported { variant } => variant.clone().concat(
                ": Instantiation, Reply, Migrate and Sudo messages not supported on traits, they should be defined on contracts directly",
            ),
            BuildError::NotDispatched { variant } => variant.clone().concat(
                ": Instantiation, Migrate and Reply messages are not dispatched by a message set, a contract has one handler of each",
            ),
            BuildError::Duplicate { name } => text("Two messages of one owner are named ").concat(
                name.as_str(),
            ),
            BuildError::Collision { name } => text(
                "Message overlaps between interface and contract impl: ",
            ).concat(name.as_str()),
            BuildError::Attached { declared, given } => {
                let given = decimal_text(*given);
                let declared = decimal_text(*declared);
                let mut out = text("Message sets given for ");
                out.append(given.as_str());
                out.append(" interfaces, attached are ");
                out.append(declared.as_str());
                out
            },
            BuildError::Missing => text("No instantiation message"),
            BuildError::Ambiguous { method } => method.clone().concat(
                ": More than one instantiation or migration message",
            ),
            BuildError::InvalidMessageType => text("Invalid message type"),
        }
    }

    /// The method, the variant or the wire name that the error is about.
    pub open spec fn culprit(&self) -> Option<Seq<char>> {
        match self {
            BuildError::Attribute { method, .. } => Some(method@),
            BuildError::Parameter { method, .. } => Some(method@),
            BuildError::Response { method } => Some(method@),
            BuildError::Unsupported { variant } => Some(variant@),
            BuildError::NotDispatched { variant } => Some(variant@),
            BuildError::Duplicate { name } => Some(name@),
            BuildError::Collision { name } => Some(name@),
            BuildError::Ambiguous { method } => Some(method@),
            _ => None,
        }
    }

    /// The text of an error names what the error is about.
    pub proof fn lemma_names_culprit(&self)
        requires
            self.culprit() is Some,
        ensures
            occurs_in(self.culprit()->0, self.text_of()),
    {
        let name = self.culprit()->0;
        lemma_occurs_at_end(name, Seq::empty());
        assert(Seq::<char>::empty() + name =~= name);
        match self {
            BuildError::Attribute { method, reason } => {
                lemma_occurs_in_longer(name, name, Seq::empty(), ": "@ + reason@);
                assert(Seq::<char>::empty() + name + (": "@ + reason@) =~= self.text_of());
            },
            BuildError::Parameter { method, position } => {
                let rest = ": Expected argument name, pattern occurred at argument "@ + decimal(
                    *position as nat,
                );
                lemma_occurs_in_longer(name, name, Seq::empty(), rest);
                assert(Seq::<char>::empty() + name + rest =~= self.text_of());
            },
            BuildError::Response { method } => {
                let rest = ": No response type. Name it in the attribute, or return a Result of it"@;
                lemma_occurs_in_longer(name, name, Seq::empty(), rest);
                assert(Seq::<char>::empty() + name + rest =~= self.text_of());
            },
            BuildError::Unsupported { variant } => {
                let rest =
                    ": Instantiation, Reply, Migrate and Sudo messages not supported on traits, they should be defined on contracts directly"@;
                lemma_occurs_in_longer(name, name, Seq::empty(), rest);
                assert(Seq::<char>::empty() + name + rest =~= self.text_of());
            },
            BuildError::NotDispatched { variant } => {
                let rest =
                    ": Instantiation, Migrate and Reply messages are not dispatched by a message set, a contract has one handler of each"@;
                lemma_occurs_in_longer(name, name, Seq::empty(), rest);
                assert(Seq::<char>::empty() + name + rest =~= self.text_of());
            },
            BuildError::Duplicate { name: twice } => {
                lemma_occurs_at_end(name, "Two messages of one owner are named "@);
            },
            BuildError::Collision { name: shared } => {
                lemma_occurs_at_end(name, "Message overlaps between interface and contract impl: "@);
            },
            BuildError::Ambiguous { method } => {
                let rest = ": More than one instantiation or migration message"@;
                lemma_occurs_in_longer(name, name, Seq::empty(), rest);
                assert(Seq::<char>::empty() + name + rest =~= self.text_of());
            },
            _ => {},
        }
    }
}

} // verus!
