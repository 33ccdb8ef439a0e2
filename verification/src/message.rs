//! The messages of interfaces and contracts: fields, variants, message sets,
//! the glue message of a contract, and its entry points.

pub mod composite;
pub mod entry_points;
pub mod enum_message;
pub mod field;
pub mod glue;
pub mod struct_message;
pub mod variant;
pub mod variants;

pub use self::composite::Composite;
pub use self::entry_points::EntryPoints;
pub use self::enum_message::{ContractEnumMessage, EnumMessage};
pub use self::field::MsgField;
pub use self::glue::GlueMessage;
pub use self::struct_message::StructMessage;
pub use self::variant::MsgVariant;
pub use self::variants::MsgVariants;
