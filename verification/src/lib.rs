//! Byte-exact encoding and decoding of the values of Apache Kafka's wire protocol.
//!
//! [`KafkaEncodable`] is what every type of the wire format implements. The scalars, the
//! strings and byte buffers and the arrays are in [`primitives`] and in the standard
//! library; a record is its fields one behind the other ([`record`]), and the optional
//! fields of a record travel as tagged fields ([`tagged`]). [`protocol`] holds messages
//! that are built from these.
pub mod arrays;
pub mod codec;
pub mod err;
pub mod fixed;
pub mod primitives;
pub mod protocol;
pub mod record;
pub mod scalars;
pub mod seqs;
pub mod sized;
pub mod tagged;
pub mod text;
pub mod uuids;
pub mod varint;

pub use codec::KafkaEncodable;
