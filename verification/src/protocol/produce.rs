//! Produce requests.
use vstd::prelude::*;
use crate::codec::KafkaEncodable;
use crate::err::CodecError;
use crate::primitives::{
    Array, CompactArray, CompactNullableArray, CompactNullableString, CompactString,
    NullableArray, NullableString,
};
use crate::protocol::records::Record;
use crate::protocol::tags::TaggedFields;

verus! {

/// The records for one partition, versions 0 to 8.
#[derive(Debug, Clone, PartialEq, Eq)]
pub struct PartitionDataV0V8 {
    pub index: i32,
    pub records: NullableArray<Record>,
}

/// The fields of [`PartitionDataV0V8`], in the order in which they are written.
pub type PartitionDataV0V8Fields = (i32, NullableArray<Record>);

impl KafkaEncodable for PartitionDataV0V8 {
    type Value = <PartitionDataV0V8Fields as KafkaEncodable>::Value;

    open spec fn value(&self) -> Self::Value {
        (self.index.value(), self.records.value())
    }

    open spec fn encode_error(v: Self::Value) -> Option<CodecError> {
        PartitionDataV0V8Fields::encode_error(v)
    }

    open spec fn wire(v: Self::Value) -> Seq<u8> {
        PartitionDataV0V8Fields::wire(v)
    }

    open spec fn parse(s: Seq<u8>) -> Result<(Self::Value, Seq<u8>), CodecError> {
        PartitionDataV0V8Fields::parse(s)
    }

    open spec fn written_before_error(v: Self::Value) -> Seq<u8> {
        PartitionDataV0V8Fields::written_before_error(v)
    }

    open spec fn unread_after_error(s: Seq<u8>) -> Seq<u8> {
        PartitionDataV0V8Fields::unread_after_error(s)
    }

    proof fn lemma_round_trip(v: Self::Value, rest: Seq<u8>) {
        PartitionDataV0V8Fields::lemma_round_trip(v, rest);
    }

    proof fn lemma_truncated(v: Self::Value, k: int) {
        PartitionDataV0V8Fields::lemma_truncated(v, k);
    }

    fn to_kafka_bytes(self, writer: &mut Vec<u8>) -> (r: Result<(), CodecError>) {
        let fields: PartitionDataV0V8Fields = (self.index, self.records);
        fields.to_kafka_bytes(writer)
    }

    fn from_kafka_bytes(reader: &mut &[u8]) -> (r: Result<Self, CodecError>) {
        match PartitionDataV0V8Fields::from_kafka_bytes(reader) {
            Ok((index, records)) => Ok(PartitionDataV0V8 { index, records }),
            Err(e) => Err(e),
        }
    }
}

/// The records for one partition, version 9.
#[derive(Debug, Clone, PartialEq, Eq)]
pub struct PartitionDataV9 {
    pub index: i32,
    pub records: CompactNullableArray<Record>,
    pub tag_buffer: TaggedFields,
}

/// The fields of [`PartitionDataV9`], in the order in which they are written.
pub type PartitionDataV9Fields = (i32, (CompactNullableArray<Record>, TaggedFields));

impl KafkaEncodable for PartitionDataV9 {
    type Value = <PartitionDataV9Fields as KafkaEncodable>::Value;

    open spec fn value(&self) -> Self::Value {
        (self.index.value(), (self.records.value(), self.tag_buffer.value()))
    }

    open spec fn encode_error(v: Self::Value) -> Option<CodecError> {
        PartitionDataV9Fields::encode_error(v)
    }

    open spec fn wire(v: Self::Value) -> Seq<u8> {
        PartitionDataV9Fields::wire(v)
    }

    open spec fn parse(s: Seq<u8>) -> Result<(Self::Value, Seq<u8>), CodecError> {
        PartitionDataV9Fields::parse(s)
    }

    open spec fn written_before_error(v: Self::Value) -> Seq<u8> {
        PartitionDataV9Fields::written_before_error(v)
    }

    open spec fn unread_after_error(s: Seq<u8>) -> Seq<u8> {
        PartitionDataV9Fields::unread_after_error(s)
    }

    proof fn lemma_round_trip(v: Self::Value, rest: Seq<u8>) {
        PartitionDataV9Fields::lemma_round_trip(v, rest);
    }

    proof fn lemma_truncated(v: Self::Value, k: int) {
        PartitionDataV9Fields::lemma_truncated(v, k);
    }

    fn to_kafka_bytes(self, writer: &mut Vec<u8>) -> (r: Result<(), CodecError>) {
        let fields: PartitionDataV9Fields = (self.index, (self.records, self.tag_buffer));
        fields.to_kafka_bytes(writer)
    }

    fn from_kafka_bytes(reader: &mut &[u8]) -> (r: Result<Self, CodecError>) {
        match PartitionDataV9Fields::from_kafka_bytes(reader) {
            Ok((index, (records, tag_buffer))) => Ok(PartitionDataV9 { index, records,
                tag_buffer }),
            Err(e) => Err(e),
        }
    }
}

/// The partitions of one topic, versions 0 to 8.
#[derive(Debug, Clone, PartialEq, Eq)]
pub struct TopicDataV0V8 {
    pub name: String,
    pub partition_data: Array<PartitionDataV0V8>,
}

/// The fields of [`TopicDataV0V8`], in the order in which they are written.
pub type TopicDataV0V8Fields = (String, Array<PartitionDataV0V8>);

impl KafkaEncodable for TopicDataV0V8 {
    type Value = <TopicDataV0V8Fields as KafkaEncodable>::Value;

    open spec fn value(&self) -> Self::Value {
        (self.name.value(), self.partition_data.value())
    }

    open spec fn encode_error(v: Self::Value) -> Option<CodecError> {
        TopicDataV0V8Fields::encode_error(v)
    }

    open spec fn wire(v: Self::Value) -> Seq<u8> {
        TopicDataV0V8Fields::wire(v)
    }

    open spec fn parse(s: Seq<u8>) -> Result<(Self::Value, Seq<u8>), CodecError> {
        TopicDataV0V8Fields::parse(s)
    }

    open spec fn written_before_error(v: Self::Value) -> Seq<u8> {
        TopicDataV0V8Fields::written_before_error(v)
    }

    open spec fn unread_after_error(s: Seq<u8>) -> Seq<u8> {
        TopicDataV0V8Fields::unread_after_error(s)
    }

    proof fn lemma_round_trip(v: Self::Value, rest: Seq<u8>) {
        TopicDataV0V8Fields::lemma_round_trip(v, rest);
    }

    proof fn lemma_truncated(v: Self::Value, k: int) {
        TopicDataV0V8Fields::lemma_truncated(v, k);
    }

    fn to_kafka_bytes(self, writer: &mut Vec<u8>) -> (r: Result<(), CodecError>) {
        let fields: TopicDataV0V8Fields = (self.name, self.partition_data);
        fields.to_kafka_bytes(writer)
    }

    fn from_kafka_bytes(reader: &mut &[u8]) -> (r: Result<Self, CodecError>) {
        match TopicDataV0V8Fields::from_kafka_bytes(reader) {
            Ok((name, partition_data)) => Ok(TopicDataV0V8 { name, partition_data }),
            Err(e) => Err(e),
        }
    }
}

/// The partitions of one topic, version 9.
#[derive(Debug, Clone, PartialEq, Eq)]
pub struct TopicDataV9 {
    pub name: CompactString,
    pub partition_data: CompactArray<PartitionDataV9>,
    pub tag_buffer: TaggedFields,
}

/// The fields of [`TopicDataV9`], in the order in which they are written.
pub type TopicDataV9Fields = (CompactString, (CompactArray<PartitionDataV9>, TaggedFields));

impl KafkaEncodable for TopicDataV9 {
    type Value = <TopicDataV9Fields as KafkaEncodable>::Value;

    open spec fn value(&self) -> Self::Value {
        (self.name.value(), (self.partition_data.value(), self.tag_buffer.value()))
    }

    open spec fn encode_error(v: Self::Value) -> Option<CodecError> {
        TopicDataV9Fields::encode_error(v)
    }

    open spec fn wire(v: Self::Value) -> Seq<u8> {
        TopicDataV9Fields::wire(v)
    }

    open spec fn parse(s: Seq<u8>) -> Result<(Self::Value, Seq<u8>), CodecError> {
        TopicDataV9Fields::parse(s)
    }

    open spec fn written_before_error(v: Self::Value) -> Seq<u8> {
        TopicDataV9Fields::written_before_error(v)
    }

    open spec fn unread_after_error(s: Seq<u8>) -> Seq<u8> {
        TopicDataV9Fields::unread_after_error(s)
    }

    proof fn lemma_round_trip(v: Self::Value, rest: Seq<u8>) {
        TopicDataV9Fields::lemma_round_trip(v, rest);
    }

    proof fn lemma_truncated(v: Self::Value, k: int) {
        TopicDataV9Fields::lemma_truncated(v, k);
    }

    fn to_kafka_bytes(self, writer: &mut Vec<u8>) -> (r: Result<(), CodecError>) {
        let fields: TopicDataV9Fields = (self.name, (self.partition_data, self.tag_buffer));
        fields.to_kafka_bytes(writer)
    }

    fn from_kafka_bytes(reader: &mut &[u8]) -> (r: Result<Self, CodecError>) {
        match TopicDataV9Fields::from_kafka_bytes(reader) {
            Ok((name, (partition_data, tag_buffer))) => Ok(TopicDataV9 { name, partition_data,
                tag_buffer }),
            Err(e) => Err(e),
        }
    }
}

/// A produce request, versions 0 to 2.
#[derive(Debug, Clone, PartialEq, Eq)]
pub struct ProduceRequestV0V2 {
    pub acks: i16,
    pub timeout_ms: i32,
    pub topic_data: Array<TopicDataV0V8>,
}

/// The fields of [`ProduceRequestV0V2`], in the order in which they are written.
pub type ProduceRequestV0V2Fields = (i16, (i32, Array<TopicDataV0V8>));

impl KafkaEncodable for ProduceRequestV0V2 {
    type Value = <ProduceRequestV0V2Fields as KafkaEncodable>::Value;

    open spec fn value(&self) -> Self::Value {
        (self.acks.value(), (self.timeout_ms.value(), self.topic_data.value()))
    }

    open spec fn encode_error(v: Self::Value) -> Option<CodecError> {
        ProduceRequestV0V2Fields::encode_error(v)
    }

    open spec fn wire(v: Self::Value) -> Seq<u8> {
        ProduceRequestV0V2Fields::wire(v)
    }

    open spec fn parse(s: Seq<u8>) -> Result<(Self::Value, Seq<u8>), CodecError> {
        ProduceRequestV0V2Fields::parse(s)
    }

    open spec fn written_before_error(v: Self::Value) -> Seq<u8> {
        ProduceRequestV0V2Fields::written_before_error(v)
    }

    open spec fn unread_after_error(s: Seq<u8>) -> Seq<u8> {
        ProduceRequestV0V2Fields::unread_after_error(s)
    }

    proof fn lemma_round_trip(v: Self::Value, rest: Seq<u8>) {
        ProduceRequestV0V2Fields::lemma_round_trip(v, rest);
    }

    proof fn lemma_truncated(v: Self::Value, k: int) {
        ProduceRequestV0V2Fields::lemma_truncated(v, k);
    }

    fn to_kafka_bytes(self, writer: &mut Vec<u8>) -> (r: Result<(), CodecError>) {
        let fields: ProduceRequestV0V2Fields = (self.acks, (self.timeout_ms, self.topic_data));
        fields.to_kafka_bytes(writer)
    }

    fn from_kafka_bytes(reader: &mut &[u8]) -> (r: Result<Self, CodecError>) {
        match ProduceRequestV0V2Fields::from_kafka_bytes(reader) {
            Ok((acks, (timeout_ms, topic_data))) => Ok(ProduceRequestV0V2 { acks, timeout_ms,
                topic_data }),
            Err(e) => Err(e),
        }
    }
}

pub type ProduceRequestV1 = ProduceRequestV0V2;

pub type ProduceRequestV2 = ProduceRequestV0V2;

/// A produce request, versions 3 to 8.
#[derive(Debug, Clone, PartialEq, Eq)]
pub struct ProduceRequestV3V8 {
    pub transactional_id: NullableString,
    pub acks: i16,
    pub timeout_ms: i32,
    pub topic_data: Array<TopicDataV0V8>,
}

/// The fields of [`ProduceRequestV3V8`], in the order in which they are written.
pub type ProduceRequestV3V8Fields = (NullableString, (i16, (i32, Array<TopicDataV0V8>)));

impl KafkaEncodable for ProduceRequestV3V8 {
    type Value = <ProduceRequestV3V8Fields as KafkaEncodable>::Value;

    open spec fn value(&self) -> Self::Value {
        (self.transactional_id.value(), (self.acks.value(), (self.timeout_ms.value(),
            self.topic_data.value())))
    }

    open spec fn encode_error(v: Self::Value) -> Option<CodecError> {
        ProduceRequestV3V8Fields::encode_error(v)
    }

    open spec fn wire(v: Self::Value) -> Seq<u8> {
        ProduceRequestV3V8Fields::wire(v)
    }

    open spec fn parse(s: Seq<u8>) -> Result<(Self::Value, Seq<u8>), CodecError> {
        ProduceRequestV3V8Fields::parse(s)
    }

    open spec fn written_before_error(v: Self::Value) -> Seq<u8> {
        ProduceRequestV3V8Fields::written_before_error(v)
    }

    open spec fn unread_after_error(s: Seq<u8>) -> Seq<u8> {
        ProduceRequestV3V8Fields::unread_after_error(s)
    }

    proof fn lemma_round_trip(v: Self::Value, rest: Seq<u8>) {
        ProduceRequestV3V8Fields::lemma_round_trip(v, rest);
    }

    proof fn lemma_truncated(v: Self::Value, k: int) {
        ProduceRequestV3V8Fields::lemma_truncated(v, k);
    }

    fn to_kafka_bytes(self, writer: &mut Vec<u8>) -> (r: Result<(), CodecError>) {
        let fields: ProduceRequestV3V8Fields = (self.transactional_id, (self.acks,
            (self.timeout_ms, self.topic_data)));
        fields.to_kafka_bytes(writer)
    }

    fn from_kafka_bytes(reader: &mut &[u8]) -> (r: Result<Self, CodecError>) {
        match ProduceRequestV3V8Fields::from_kafka_bytes(reader) {
            Ok((transactional_id, (acks, (timeout_ms,
                topic_data)))) => Ok(ProduceRequestV3V8 { transactional_id, acks, timeout_ms,
                topic_data }),
            Err(e) => Err(e),
        }
    }
}

/// A produce request, version 9.
#[derive(Debug, Clone, PartialEq, Eq)]
pub struct ProduceRequestV9 {
    pub transactional_id: CompactNullableString,
    pub acks: i16,
    pub timeout_ms: i32,
    pub topic_data: CompactArray<PartitionDataV0V8>,
    pub tag_buffer: TaggedFields,
}

/// The fields of [`ProduceRequestV9`], in the order in which they are written.
pub type ProduceRequestV9Fields = (CompactNullableString, (i16, (i32,
    (CompactArray<PartitionDataV0V8>, TaggedFields))));

impl KafkaEncodable for ProduceRequestV9 {
    type Value = <ProduceRequestV9Fields as KafkaEncodable>::Value;

    open spec fn value(&self) -> Self::Value {
        (self.transactional_id.value(), (self.acks.value(), (self.timeout_ms.value(),
            (self.topic_data.value(), self.tag_buffer.value()))))
    }

    open spec fn encode_error(v: Self::Value) -> Option<CodecError> {
        ProduceRequestV9Fields::encode_error(v)
    }

    open spec fn wire(v: Self::Value) -> Seq<u8> {
        ProduceRequestV9Fields::wire(v)
    }

    open spec fn parse(s: Seq<u8>) -> Result<(Self::Value, Seq<u8>), CodecError> {
        ProduceRequestV9Fields::parse(s)
    }

    open spec fn written_before_error(v: Self::Value) -> Seq<u8> {
        ProduceRequestV9Fields::written_before_error(v)
    }

    open spec fn unread_after_error(s: Seq<u8>) -> Seq<u8> {
        ProduceRequestV9Fields::unread_after_error(s)
    }

    proof fn lemma_round_trip(v: Self::Value, rest: Seq<u8>) {
        ProduceRequestV9Fields::lemma_round_trip(v, rest);
    }

    proof fn lemma_truncated(v: Self::Value, k: int) {
        ProduceRequestV9Fields::lemma_truncated(v, k);
    }

    fn to_kafka_bytes(self, writer: &mut Vec<u8>) -> (r: Result<(), CodecError>) {
        let fields: ProduceRequestV9Fields = (self.transactional_id, (self.acks, (self.timeout_ms,
            (self.topic_data, self.tag_buffer))));
        fields.to_kafka_bytes(writer)
    }

    fn from_kafka_bytes(reader: &mut &[u8]) -> (r: Result<Self, CodecError>) {
        match ProduceRequestV9Fields::from_kafka_bytes(reader) {
            Ok((transactional_id, (acks, (timeout_ms, (topic_data,
                tag_buffer))))) => Ok(ProduceRequestV9 { transactional_id, acks, timeout_ms,
                topic_data, tag_buffer }),
            Err(e) => Err(e),
        }
    }
}

} // verus!
