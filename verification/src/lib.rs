//! Message schemas for contracts: the operations of interfaces and contracts,
//! the message sets compiled from them, and the rule by which an incoming
//! message is resolved to exactly one handler.

pub mod check_generics;
pub mod error;
pub mod message;
pub mod names;
pub mod resolve;
pub mod seqs;
pub mod source;
pub mod text;
pub mod types;
pub mod utils;
pub mod wire;
