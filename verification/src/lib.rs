//! A typed, durable key-value map over a two-column table, with forward
//! lookup (key to value), reverse lookup (value to keys), and pluggable
//! key/value codecs whose round-trip obligation is stated and proved.

pub mod codec;
pub mod error;
pub mod laws;
pub mod message;
pub mod store;

pub use codec::Codec;
pub use error::StorageError;
pub use message::Attachment;
pub use message::Button;
pub use message::ButtonStyle;
pub use message::MessageBuilder;
pub use store::DBMap;
