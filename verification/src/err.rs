//! Errors reported by the codec.
use vstd::prelude::*;

verus! {

/// Some types in Kafka's network protocol are limited in size; this error says that a value
/// of `size` bytes (or elements) does not fit the length header of its wire type.
#[derive(Debug, Clone, Copy, PartialEq, Eq)]
pub struct TooManyBytesError {
    pub size: usize,
}

/// Everything that can go wrong while encoding or decoding.
///
/// Every error ends the call that reports it; nothing is retried.
#[derive(Debug, Clone, Copy, PartialEq, Eq)]
pub enum CodecError {
    /// The input ended before a fixed-width or length-declared read was complete, or a
    /// declared length can never be satisfied (a negative length, a compact header of zero
    /// where null is not allowed).
    ShortRead,
    /// A varint did not end within the byte count allowed for its width.
    MalformedVarInt,
    /// The bytes of a text value are not valid UTF-8.
    InvalidEncoding,
    /// A value is too long for the length header of its wire type.
    TooManyBytes(TooManyBytesError),
    /// A known tag occurred a second time in one tagged-field block.
    DuplicateTaggedField { tag: u32 },
    /// An enumerated wire value has no known meaning.
    UnrecognizedDiscriminant { value: i16 },
}

/// The error for a value of `size` bytes or elements that its header cannot count.
pub open spec fn too_many(size: nat) -> CodecError {
    CodecError::TooManyBytes(TooManyBytesError { size: size as usize })
}

} // verus!
