//! Records and batches of records.
use vstd::prelude::*;
use crate::codec::KafkaEncodable;
use crate::err::CodecError;
use crate::primitives::{
    Array, CompactNullableBytes, CompactString, NullableArray, VarI32, VarI64,
};

verus! {

/// A header of a record.
#[derive(Debug, Clone, PartialEq, Eq)]
pub struct RecordHeader {
    pub key: CompactString,
    pub value: CompactNullableBytes,
}

/// The fields of [`RecordHeader`], in the order in which they are written.
pub type RecordHeaderFields = (CompactString, CompactNullableBytes);

impl KafkaEncodable for RecordHeader {
    type Value = <RecordHeaderFields as KafkaEncodable>::Value;

    open spec fn value(&self) -> Self::Value {
        (self.key.value(), self.value.value())
    }

    open spec fn encode_error(v: Self::Value) -> Option<CodecError> {
        RecordHeaderFields::encode_error(v)
    }

    open spec fn wire(v: Self::Value) -> Seq<u8> {
        RecordHeaderFields::wire(v)
    }

    open spec fn parse(s: Seq<u8>) -> Result<(Self::Value, Seq<u8>), CodecError> {
        RecordHeaderFields::parse(s)
    }

    open spec fn written_before_error(v: Self::Value) -> Seq<u8> {
        RecordHeaderFields::written_before_error(v)
    }

    open spec fn unread_after_error(s: Seq<u8>) -> Seq<u8> {
        RecordHeaderFields::unread_after_error(s)
    }

    proof fn lemma_round_trip(v: Self::Value, rest: Seq<u8>) {
        RecordHeaderFields::lemma_round_trip(v, rest);
    }

    proof fn lemma_truncated(v: Self::Value, k: int) {
        RecordHeaderFields::lemma_truncated(v, k);
    }

    fn to_kafka_bytes(self, writer: &mut Vec<u8>) -> (r: Result<(), CodecError>) {
        let fields: RecordHeaderFields = (self.key, self.value);
        fields.to_kafka_bytes(writer)
    }

    fn from_kafka_bytes(reader: &mut &[u8]) -> (r: Result<Self, CodecError>) {
        match RecordHeaderFields::from_kafka_bytes(reader) {
            Ok((key, value)) => Ok(RecordHeader { key, value }),
            Err(e) => Err(e),
        }
    }
}

/// One record of a batch.
#[derive(Debug, Clone, PartialEq, Eq)]
pub struct Record {
    pub length: VarI32,
    pub attributes: u8,
    pub timestamp_delta: VarI64,
    pub offset_delta: VarI32,
    pub key: CompactNullableBytes,
    pub value: CompactNullableBytes,
    pub headers: NullableArray<RecordHeader>,
}

/// The fields of [`Record`], in the order in which they are written.
pub type RecordFields = (VarI32, (u8, (VarI64, (VarI32, (CompactNullableBytes,
    (CompactNullableBytes, NullableArray<RecordHeader>))))));

impl KafkaEncodable for Record {
    type Value = <RecordFields as KafkaEncodable>::Value;

    open spec fn value(&self) -> Self::Value {
        (self.length.value(), (self.attributes.value(), (self.timestamp_delta.value(),
            (self.offset_delta.value(), (self.key.value(), (self.value.value(),
            self.headers.value()))))))
    }

    open spec fn encode_error(v: Self::Value) -> Option<CodecError> {
        RecordFields::encode_error(v)
    }

    open spec fn wire(v: Self::Value) -> Seq<u8> {
        RecordFields::wire(v)
    }

    open spec fn parse(s: Seq<u8>) -> Result<(Self::Value, Seq<u8>), CodecError> {
        RecordFields::parse(s)
    }

    open spec fn written_before_error(v: Self::Value) -> Seq<u8> {
        RecordFields::written_before_error(v)
    }

    open spec fn unread_after_error(s: Seq<u8>) -> Seq<u8> {
        RecordFields::unread_after_error(s)
    }

    proof fn lemma_round_trip(v: Self::Value, rest: Seq<u8>) {
        RecordFields::lemma_round_trip(v, rest);
    }

    proof fn lemma_truncated(v: Self::Value, k: int) {
        RecordFields::lemma_truncated(v, k);
    }

    fn to_kafka_bytes(self, writer: &mut Vec<u8>) -> (r: Result<(), CodecError>) {
        let fields: RecordFields = (self.length, (self.attributes, (self.timestamp_delta,
            (self.offset_delta, (self.key, (self.value, self.headers))))));
        fields.to_kafka_bytes(writer)
    }

    fn from_kafka_bytes(reader: &mut &[u8]) -> (r: Result<Self, CodecError>) {
        match RecordFields::from_kafka_bytes(reader) {
            Ok((length, (attributes, (timestamp_delta, (offset_delta, (key, (value,
                headers))))))) => Ok(Record { length, attributes, timestamp_delta, offset_delta,
                key, value, headers }),
            Err(e) => Err(e),
        }
    }
}

/// A batch of records.
#[derive(Debug, Clone, PartialEq, Eq)]
pub struct RecordBatch {
    pub base_offset: i64,
    pub batch_length: i32,
    pub partition_leader_epoch: i32,
    pub magic: i8,
    pub crc: i32,
    pub attributes: i16,
    pub last_offset_delta: i32,
    pub base_timestamp: i64,
    pub max_timestamp: i64,
    pub producer_id: i64,
    pub producer_epoch_offset: i16,
    pub base_sequence: i32,
    pub records: Array<Record>,
}

/// The fields of [`RecordBatch`], in the order in which they are written.
pub type RecordBatchFields = (i64, (i32, (i32, (i8, (i32, (i16, (i32, (i64, (i64, (i64, (i16,
    (i32, Array<Record>))))))))))));

impl KafkaEncodable for RecordBatch {
    type Value = <RecordBatchFields as KafkaEncodable>::Value;

    open spec fn value(&self) -> Self::Value {
        (self.base_offset.value(), (self.batch_length.value(),
            (self.partition_leader_epoch.value(), (self.magic.value(), (self.crc.value(),
            (self.attributes.value(), (self.last_offset_delta.value(),
            (self.base_timestamp.value(), (self.max_timestamp.value(), (self.producer_id.value(),
            (self.producer_epoch_offset.value(), (self.base_sequence.value(),
            self.records.value()))))))))))))
    }

    open spec fn encode_error(v: Self::Value) -> Option<CodecError> {
        RecordBatchFields::encode_error(v)
    }

    open spec fn wire(v: Self::Value) -> Seq<u8> {
        RecordBatchFields::wire(v)
    }

    open spec fn parse(s: Seq<u8>) -> Result<(Self::Value, Seq<u8>), CodecError> {
        RecordBatchFields::parse(s)
    }

    open spec fn written_before_error(v: Self::Value) -> Seq<u8> {
        RecordBatchFields::written_before_error(v)
    }

    open spec fn unread_after_error(s: Seq<u8>) -> Seq<u8> {
        RecordBatchFields::unread_after_error(s)
    }

    proof fn lemma_round_trip(v: Self::Value, rest: Seq<u8>) {
        RecordBatchFields::lemma_round_trip(v, rest);
    }

    proof fn lemma_truncated(v: Self::Value, k: int) {
        RecordBatchFields::lemma_truncated(v, k);
    }

    fn to_kafka_bytes(self, writer: &mut Vec<u8>) -> (r: Result<(), CodecError>) {
        let fields: RecordBatchFields = (self.base_offset, (self.batch_length,
            (self.partition_leader_epoch, (self.magic, (self.crc, (self.attributes,
            (self.last_offset_delta, (self.base_timestamp, (self.max_timestamp, (self.producer_id,
            (self.producer_epoch_offset, (self.base_sequence, self.records))))))))))));
        fields.to_kafka_bytes(writer)
    }

    fn from_kafka_bytes(reader: &mut &[u8]) -> (r: Result<Self, CodecError>) {
        match RecordBatchFields::from_kafka_bytes(reader) {
            Ok((base_offset, (batch_length, (partition_leader_epoch, (magic, (crc, (attributes,
                (last_offset_delta, (base_timestamp, (max_timestamp, (producer_id,
                (producer_epoch_offset, (base_sequence,
                records))))))))))))) => Ok(RecordBatch { base_offset, batch_length,
                partition_leader_epoch, magic, crc, attributes, last_offset_delta, base_timestamp,
                max_timestamp, producer_id, producer_epoch_offset, base_sequence, records }),
            Err(e) => Err(e),
        }
    }
}

} // verus!
