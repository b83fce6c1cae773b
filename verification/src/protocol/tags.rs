//! Tagged fields that are kept as bytes.
use vstd::prelude::*;
use crate::codec::KafkaEncodable;
use crate::err::CodecError;
use crate::arrays::elements_wire;
use crate::primitives::{UnsignedVarInt32, VarArray};
use crate::varint::varint_bytes;

verus! {

/// One tagged field that is kept as bytes, its type unknown.
#[derive(Debug, Clone, PartialEq, Eq)]
pub struct RawTaggedField {
    /// The tag of the field.
    pub tag: UnsignedVarInt32,
    /// The payload of the field, as it came.
    pub data: VarArray<u8>,
}

/// The fields of [`RawTaggedField`], in the order in which they are written.
pub type RawTaggedFieldFields = (UnsignedVarInt32, VarArray<u8>);

impl KafkaEncodable for RawTaggedField {
    type Value = <RawTaggedFieldFields as KafkaEncodable>::Value;

    open spec fn value(&self) -> Self::Value {
        (self.tag.value(), self.data.value())
    }

    open spec fn encode_error(v: Self::Value) -> Option<CodecError> {
        RawTaggedFieldFields::encode_error(v)
    }

    open spec fn wire(v: Self::Value) -> Seq<u8> {
        RawTaggedFieldFields::wire(v)
    }

    open spec fn parse(s: Seq<u8>) -> Result<(Self::Value, Seq<u8>), CodecError> {
        RawTaggedFieldFields::parse(s)
    }

    open spec fn written_before_error(v: Self::Value) -> Seq<u8> {
        RawTaggedFieldFields::written_before_error(v)
    }

    open spec fn unread_after_error(s: Seq<u8>) -> Seq<u8> {
        RawTaggedFieldFields::unread_after_error(s)
    }

    proof fn lemma_round_trip(v: Self::Value, rest: Seq<u8>) {
        RawTaggedFieldFields::lemma_round_trip(v, rest);
    }

    proof fn lemma_truncated(v: Self::Value, k: int) {
        RawTaggedFieldFields::lemma_truncated(v, k);
    }

    fn to_kafka_bytes(self, writer: &mut Vec<u8>) -> (r: Result<(), CodecError>) {
        let fields: RawTaggedFieldFields = (self.tag, self.data);
        fields.to_kafka_bytes(writer)
    }

    fn from_kafka_bytes(reader: &mut &[u8]) -> (r: Result<Self, CodecError>) {
        match RawTaggedFieldFields::from_kafka_bytes(reader) {
            Ok((tag, data)) => Ok(RawTaggedField { tag, data }),
            Err(e) => Err(e),
        }
    }
}

/// A tagged-field block that is kept as it came: the block of a record of which no tagged
/// field is known.
#[derive(Debug, Clone, PartialEq, Eq)]
pub struct TaggedFields {
    /// The fields, in the order in which they came.
    pub tags: VarArray<RawTaggedField>,
}

/// The fields of [`TaggedFields`], in the order in which they are written.
pub type TaggedFieldsFields = VarArray<RawTaggedField>;

impl KafkaEncodable for TaggedFields {
    type Value = <TaggedFieldsFields as KafkaEncodable>::Value;

    open spec fn value(&self) -> Self::Value {
        self.tags.value()
    }

    open spec fn encode_error(v: Self::Value) -> Option<CodecError> {
        TaggedFieldsFields::encode_error(v)
    }

    open spec fn wire(v: Self::Value) -> Seq<u8> {
        TaggedFieldsFields::wire(v)
    }

    open spec fn parse(s: Seq<u8>) -> Result<(Self::Value, Seq<u8>), CodecError> {
        TaggedFieldsFields::parse(s)
    }

    open spec fn written_before_error(v: Self::Value) -> Seq<u8> {
        TaggedFieldsFields::written_before_error(v)
    }

    open spec fn unread_after_error(s: Seq<u8>) -> Seq<u8> {
        TaggedFieldsFields::unread_after_error(s)
    }

    proof fn lemma_round_trip(v: Self::Value, rest: Seq<u8>) {
        TaggedFieldsFields::lemma_round_trip(v, rest);
    }

    proof fn lemma_truncated(v: Self::Value, k: int) {
        TaggedFieldsFields::lemma_truncated(v, k);
    }

    fn to_kafka_bytes(self, writer: &mut Vec<u8>) -> (r: Result<(), CodecError>) {
        let fields: TaggedFieldsFields = self.tags;
        fields.to_kafka_bytes(writer)
    }

    fn from_kafka_bytes(reader: &mut &[u8]) -> (r: Result<Self, CodecError>) {
        match TaggedFieldsFields::from_kafka_bytes(reader) {
            Ok(tags) => Ok(TaggedFields { tags }),
            Err(e) => Err(e),
        }
    }
}

impl TaggedFields {
    /// The block without fields.
    pub fn new() -> (r: Self)
        ensures
            r.tags.0@.len() == 0,
            r.value() == Seq::<(u32, Seq<u8>)>::empty(),
            TaggedFields::encode_error(r.value()) is None,
            TaggedFields::wire(r.value()) == seq![0u8],
    {
        let r = TaggedFields { tags: VarArray(Vec::new()) };
        proof {
            assert(r.value() =~= Seq::<(u32, Seq<u8>)>::empty());
            lemma_empty_block();
        }
        r
    }
}

/// The block without fields is the single byte 0.
pub proof fn lemma_empty_block()
    ensures
        TaggedFields::encode_error(Seq::<(u32, Seq<u8>)>::empty()) is None,
        TaggedFields::wire(Seq::<(u32, Seq<u8>)>::empty()) == seq![0u8],
{
    let none = Seq::<(u32, Seq<u8>)>::empty();
    assert(elements_wire::<RawTaggedField>(none) == Seq::<u8>::empty());
    assert(varint_bytes(0) + Seq::<u8>::empty() =~= seq![0u8]);
}

} // verus!
