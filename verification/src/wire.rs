//! What passes at run time: the payload that arrives, the message it is
//! resolved to, the call that a message leads to, and the errors of decoding.

use crate::message::variant::LegKind;
use crate::text::{
    decimal, decimal_text, join, joined, lemma_joined_holds, lemma_occurs_at_end,
    lemma_occurs_in_longer, occurs_in, text,
};
use vstd::prelude::*;
use vstd::string::StringExecFns;

verus! {

/// A top-level key of a payload.
#[derive(Debug)]
pub enum Key {
    /// A key that is a text.
    Text(String),
    /// A key of another kind.
    Other,
}

/// What a payload is at its top level.
#[derive(Debug)]
pub enum Shape {
    /// A map from keys to values, with its keys in order.
    Object(Vec<Key>),
    /// Anything else.
    Other,
}

/// A payload that was parsed without regard to any message type.
#[derive(Debug)]
pub struct Payload {
    pub shape: Shape,
    /// The payload as it is written in an error message.
    pub text: String,
}

impl Payload {
    /// The wire name that the payload gives: its one key, where it is a map
    /// with exactly one key and the key is a text.
    pub open spec fn spec_name(&self) -> Option<&String> {
        match self.shape {
            Shape::Object(keys) => if keys@.len() == 1 {
                match keys@[0] {
                    Key::Text(name) => Some(&name),
                    Key::Other => None,
                }
            } else {
                None
            },
            Shape::Other => None,
        }
    }

    /// The wire name that the payload gives.
    #[verifier::when_used_as_spec(spec_name)]
    pub fn name(&self) -> (name: Option<&String>)
        ensures
            name == self.spec_name(),
    {
        match &self.shape {
            Shape::Object(keys) => {
                if keys.len() == 1 {
                    match &keys[0] {
                        Key::Text(name) => Some(name),
                        Key::Other => None,
                    }
                } else {
                    None
                }
            },
            Shape::Other => None,
        }
    }
}

/// A message of a contract: the arm of the glue message that holds it, and
/// the variant of that arm's message set.
#[derive(Clone, Copy, PartialEq, Eq, Structural, Debug)]
pub struct GlueMsg {
    pub arm: usize,
    pub variant: usize,
}

/// The call that a message leads to.
#[derive(Debug)]
pub struct Invocation<'a> {
    /// The handler: the method that the variant was made of.
    pub function_name: &'a String,
    /// The fields that are handed to it after the context, in order.
    pub fields: Vec<&'a String>,
    /// Whether the custom query type is erased from the context first.
    pub narrow_ctx: bool,
    /// Whether the handler's response is converted to that of the contract.
    pub into_response: bool,
    pub kind: LegKind,
}

/// Why a payload is no message of a contract.
#[derive(Debug)]
pub enum DecodeError {
    /// The payload is no map.
    WrongFormat,
    /// The payload has no key, or more than one.
    KeyCount {
        /// The number of keys found.
        found: usize,
    },
    /// No message set of the contract has a message of the payload's name.
    Unsupported {
        /// The payload as it was received.
        received: String,
        /// The wire names of all the message sets: ascending, each once.
        supported: Vec<String>,
    },
    /// The message set that has the name could not decode the payload.
    Nested {
        /// What the message set reported.
        reason: String,
    },
}

impl DecodeError {
    /// The text of the error.
    pub open spec fn text_of(&self) -> Seq<char> {
        match self {
            DecodeError::WrongFormat => "Wrong message format!"@,
            DecodeError::KeyCount { found } => "Expected exactly one message. Received "@ + decimal(
                *found as nat,
            ),
            DecodeError::Unsupported { received, supported } => {
                let head = "Unsupported message received: "@ + received@
                    + ". Messages supported by this contract"@;
                if supported@.len() == 0 {
                    head
                } else {
                    head + ": "@ + joined(supported.deep_view(), ", "@)
                }
            },
            DecodeError::Nested { reason } => reason@,
        }
    }

    /// Writes the text of the error.
    pub fn message(&self) -> (out: String)
        ensures
            out@ == self.text_of(),
    {
        match self {
            DecodeError::WrongFormat => text("Wrong message format!"),
            DecodeError::KeyCount { found } => {
                let count = decimal_text(*found);
                text("Expected exactly one message. Received ").concat(count.as_str())
            },
            DecodeError::Unsupported { received, supported } => {
                let mut out = text("Unsupported message received: ");
                out.append(received.as_str());
                out.append(". Messages supported by this contract");
                if supported.len() > 0 {
                    let list = join(supported, ", ");
                    out.append(": ");
                    out.append(list.as_str());
                }
                out
            },
            DecodeError::Nested { reason } => reason.clone(),
        }
    }
}

/// The text of a wrong count of keys names the count.
pub proof fn lemma_key_count_named(found: usize)
    ensures
        occurs_in(decimal(found as nat), (DecodeError::KeyCount { found }).text_of()),
{
    lemma_occurs_at_end(decimal(found as nat), "Expected exactly one message. Received "@);
}

/// The text of an unsupported message names every supported message.
pub proof fn lemma_supported_named(received: String, supported: Vec<String>, k: int)
    requires
        0 <= k < supported@.len(),
    ensures
        occurs_in(supported@[k]@, (DecodeError::Unsupported { received, supported }).text_of()),
{
    let names = supported.deep_view();
    let list = joined(names, ", "@);
    let head = "Unsupported message received: "@ + received@
        + ". Messages supported by this contract"@;
    assert(names[k] == supported@[k]@);
    lemma_joined_holds(names, ", "@, k);
    lemma_occurs_in_longer(names[k], list, head + ": "@, Seq::empty());
    assert(head + ": "@ + list + Seq::<char>::empty() =~= head + ": "@ + list);
}

/// The outcome for a payload whose name a message set has claimed: what the
/// set decodes is the message, and what it reports is the error, whichever
/// sets come after it.
pub fn settle<M>(nested: Result<M, String>) -> (outcome: Result<M, DecodeError>)
    ensures
        match nested {
            Ok(message) => outcome == Ok::<M, DecodeError>(message),
            Err(reason) => outcome == Err::<M, DecodeError>(DecodeError::Nested { reason }),
        },
{
    match nested {
        Ok(message) => Ok(message),
        Err(reason) => Err(DecodeError::Nested { reason }),
    }
}

} // verus!
