//! The headers of requests and responses.
use vstd::prelude::*;
use crate::codec::KafkaEncodable;
use crate::err::CodecError;
use crate::primitives::NullableString;
use crate::protocol::api_key::ApiKey;
use crate::protocol::tags::TaggedFields;
use crate::protocol::ApiVersion;

verus! {

/// The header of a request, version 0.
#[derive(Debug, Clone, PartialEq, Eq)]
pub struct RequestHeaderV0 {
    pub request_api_key: ApiKey,
    pub request_api_version: ApiVersion,
    pub correlation_id: i32,
}

/// The fields of [`RequestHeaderV0`], in the order in which they are written.
pub type RequestHeaderV0Fields = (ApiKey, (ApiVersion, i32));

impl KafkaEncodable for RequestHeaderV0 {
    type Value = <RequestHeaderV0Fields as KafkaEncodable>::Value;

    open spec fn value(&self) -> Self::Value {
        (self.request_api_key.value(), (self.request_api_version.value(),
            self.correlation_id.value()))
    }

    open spec fn encode_error(v: Self::Value) -> Option<CodecError> {
        RequestHeaderV0Fields::encode_error(v)
    }

    open spec fn wire(v: Self::Value) -> Seq<u8> {
        RequestHeaderV0Fields::wire(v)
    }

    open spec fn parse(s: Seq<u8>) -> Result<(Self::Value, Seq<u8>), CodecError> {
        RequestHeaderV0Fields::parse(s)
    }

    open spec fn written_before_error(v: Self::Value) -> Seq<u8> {
        RequestHeaderV0Fields::written_before_error(v)
    }

    open spec fn unread_after_error(s: Seq<u8>) -> Seq<u8> {
        RequestHeaderV0Fields::unread_after_error(s)
    }

    proof fn lemma_round_trip(v: Self::Value, rest: Seq<u8>) {
        RequestHeaderV0Fields::lemma_round_trip(v, rest);
    }

    proof fn lemma_truncated(v: Self::Value, k: int) {
        RequestHeaderV0Fields::lemma_truncated(v, k);
    }

    fn to_kafka_bytes(self, writer: &mut Vec<u8>) -> (r: Result<(), CodecError>) {
        let fields: RequestHeaderV0Fields = (self.request_api_key, (self.request_api_version,
            self.correlation_id));
        fields.to_kafka_bytes(writer)
    }

    fn from_kafka_bytes(reader: &mut &[u8]) -> (r: Result<Self, CodecError>) {
        match RequestHeaderV0Fields::from_kafka_bytes(reader) {
            Ok((request_api_key, (request_api_version,
                correlation_id))) => Ok(RequestHeaderV0 { request_api_key, request_api_version,
                correlation_id }),
            Err(e) => Err(e),
        }
    }
}

/// The header of a request, version 1.
#[derive(Debug, Clone, PartialEq, Eq)]
pub struct RequestHeaderV1 {
    pub request_api_key: ApiKey,
    pub request_api_version: ApiVersion,
    pub correlation_id: i32,
    pub client_id: NullableString,
}

/// The fields of [`RequestHeaderV1`], in the order in which they are written.
pub type RequestHeaderV1Fields = (ApiKey, (ApiVersion, (i32, NullableString)));

impl KafkaEncodable for RequestHeaderV1 {
    type Value = <RequestHeaderV1Fields as KafkaEncodable>::Value;

    open spec fn value(&self) -> Self::Value {
        (self.request_api_key.value(), (self.request_api_version.value(),
            (self.correlation_id.value(), self.client_id.value())))
    }

    open spec fn encode_error(v: Self::Value) -> Option<CodecError> {
        RequestHeaderV1Fields::encode_error(v)
    }

    open spec fn wire(v: Self::Value) -> Seq<u8> {
        RequestHeaderV1Fields::wire(v)
    }

    open spec fn parse(s: Seq<u8>) -> Result<(Self::Value, Seq<u8>), CodecError> {
        RequestHeaderV1Fields::parse(s)
    }

    open spec fn written_before_error(v: Self::Value) -> Seq<u8> {
        RequestHeaderV1Fields::written_before_error(v)
    }

    open spec fn unread_after_error(s: Seq<u8>) -> Seq<u8> {
        RequestHeaderV1Fields::unread_after_error(s)
    }

    proof fn lemma_round_trip(v: Self::Value, rest: Seq<u8>) {
        RequestHeaderV1Fields::lemma_round_trip(v, rest);
    }

    proof fn lemma_truncated(v: Self::Value, k: int) {
        RequestHeaderV1Fields::lemma_truncated(v, k);
    }

    fn to_kafka_bytes(self, writer: &mut Vec<u8>) -> (r: Result<(), CodecError>) {
        let fields: RequestHeaderV1Fields = (self.request_api_key, (self.request_api_version,
            (self.correlation_id, self.client_id)));
        fields.to_kafka_bytes(writer)
    }

    fn from_kafka_bytes(reader: &mut &[u8]) -> (r: Result<Self, CodecError>) {
        match RequestHeaderV1Fields::from_kafka_bytes(reader) {
            Ok((request_api_key, (request_api_version, (correlation_id,
                client_id)))) => Ok(RequestHeaderV1 { request_api_key, request_api_version,
                correlation_id, client_id }),
            Err(e) => Err(e),
        }
    }
}

/// The header of a request, version 2.
#[derive(Debug, Clone, PartialEq, Eq)]
pub struct RequestHeaderV2 {
    pub request_api_key: ApiKey,
    pub request_api_version: ApiVersion,
    pub correlation_id: i32,
    pub client_id: NullableString,
    pub tag_buffer: TaggedFields,
}

/// The fields of [`RequestHeaderV2`], in the order in which they are written.
pub type RequestHeaderV2Fields = (ApiKey, (ApiVersion, (i32, (NullableString, TaggedFields))));

impl KafkaEncodable for RequestHeaderV2 {
    type Value = <RequestHeaderV2Fields as KafkaEncodable>::Value;

    open spec fn value(&self) -> Self::Value {
        (self.request_api_key.value(), (self.request_api_version.value(),
            (self.correlation_id.value(), (self.client_id.value(), self.tag_buffer.value()))))
    }

    open spec fn encode_error(v: Self::Value) -> Option<CodecError> {
        RequestHeaderV2Fields::encode_error(v)
    }

    open spec fn wire(v: Self::Value) -> Seq<u8> {
        RequestHeaderV2Fields::wire(v)
    }

    open spec fn parse(s: Seq<u8>) -> Result<(Self::Value, Seq<u8>), CodecError> {
        RequestHeaderV2Fields::parse(s)
    }

    open spec fn written_before_error(v: Self::Value) -> Seq<u8> {
        RequestHeaderV2Fields::written_before_error(v)
    }

    open spec fn unread_after_error(s: Seq<u8>) -> Seq<u8> {
        RequestHeaderV2Fields::unread_after_error(s)
    }

    proof fn lemma_round_trip(v: Self::Value, rest: Seq<u8>) {
        RequestHeaderV2Fields::lemma_round_trip(v, rest);
    }

    proof fn lemma_truncated(v: Self::Value, k: int) {
        RequestHeaderV2Fields::lemma_truncated(v, k);
    }

    fn to_kafka_bytes(self, writer: &mut Vec<u8>) -> (r: Result<(), CodecError>) {
        let fields: RequestHeaderV2Fields = (self.request_api_key, (self.request_api_version,
            (self.correlation_id, (self.client_id, self.tag_buffer))));
        fields.to_kafka_bytes(writer)
    }

    fn from_kafka_bytes(reader: &mut &[u8]) -> (r: Result<Self, CodecError>) {
        match RequestHeaderV2Fields::from_kafka_bytes(reader) {
            Ok((request_api_key, (request_api_version, (correlation_id, (client_id,
                tag_buffer))))) => Ok(RequestHeaderV2 { request_api_key, request_api_version,
                correlation_id, client_id, tag_buffer }),
            Err(e) => Err(e),
        }
    }
}

/// What every version of the header of a response has.
pub trait ResponseHeader {
    /// The number that ties the response to its request.
    fn get_correlation_id(&self) -> i32;
}

/// The header of a response, version 0.
#[derive(Debug, Clone, PartialEq, Eq)]
pub struct ResponseHeaderV0 {
    pub correlation_id: i32,
}

/// The fields of [`ResponseHeaderV0`], in the order in which they are written.
pub type ResponseHeaderV0Fields = i32;

impl KafkaEncodable for ResponseHeaderV0 {
    type Value = <ResponseHeaderV0Fields as KafkaEncodable>::Value;

    open spec fn value(&self) -> Self::Value {
        self.correlation_id.value()
    }

    open spec fn encode_error(v: Self::Value) -> Option<CodecError> {
        ResponseHeaderV0Fields::encode_error(v)
    }

    open spec fn wire(v: Self::Value) -> Seq<u8> {
        ResponseHeaderV0Fields::wire(v)
    }

    open spec fn parse(s: Seq<u8>) -> Result<(Self::Value, Seq<u8>), CodecError> {
        ResponseHeaderV0Fields::parse(s)
    }

    open spec fn written_before_error(v: Self::Value) -> Seq<u8> {
        ResponseHeaderV0Fields::written_before_error(v)
    }

    open spec fn unread_after_error(s: Seq<u8>) -> Seq<u8> {
        ResponseHeaderV0Fields::unread_after_error(s)
    }

    proof fn lemma_round_trip(v: Self::Value, rest: Seq<u8>) {
        ResponseHeaderV0Fields::lemma_round_trip(v, rest);
    }

    proof fn lemma_truncated(v: Self::Value, k: int) {
        ResponseHeaderV0Fields::lemma_truncated(v, k);
    }

    fn to_kafka_bytes(self, writer: &mut Vec<u8>) -> (r: Result<(), CodecError>) {
        let fields: ResponseHeaderV0Fields = self.correlation_id;
        fields.to_kafka_bytes(writer)
    }

    fn from_kafka_bytes(reader: &mut &[u8]) -> (r: Result<Self, CodecError>) {
        match ResponseHeaderV0Fields::from_kafka_bytes(reader) {
            Ok(correlation_id) => Ok(ResponseHeaderV0 { correlation_id }),
            Err(e) => Err(e),
        }
    }
}

impl ResponseHeader for ResponseHeaderV0 {
    fn get_correlation_id(&self) -> (id: i32)
        ensures
            id == self.correlation_id,
    {
        self.correlation_id
    }
}

/// The header of a response, version 1.
#[derive(Debug, Clone, PartialEq, Eq)]
pub struct ResponseHeaderV1 {
    pub correlation_id: i32,
    pub tag_buffer: TaggedFields,
}

/// The fields of [`ResponseHeaderV1`], in the order in which they are written.
pub type ResponseHeaderV1Fields = (i32, TaggedFields);

impl KafkaEncodable for ResponseHeaderV1 {
    type Value = <ResponseHeaderV1Fields as KafkaEncodable>::Value;

    open spec fn value(&self) -> Self::Value {
        (self.correlation_id.value(), self.tag_buffer.value())
    }

    open spec fn encode_error(v: Self::Value) -> Option<CodecError> {
        ResponseHeaderV1Fields::encode_error(v)
    }

    open spec fn wire(v: Self::Value) -> Seq<u8> {
        ResponseHeaderV1Fields::wire(v)
    }

    open spec fn parse(s: Seq<u8>) -> Result<(Self::Value, Seq<u8>), CodecError> {
        ResponseHeaderV1Fields::parse(s)
    }

    open spec fn written_before_error(v: Self::Value) -> Seq<u8> {
        ResponseHeaderV1Fields::written_before_error(v)
    }

    open spec fn unread_after_error(s: Seq<u8>) -> Seq<u8> {
        ResponseHeaderV1Fields::unread_after_error(s)
    }

    proof fn lemma_round_trip(v: Self::Value, rest: Seq<u8>) {
        ResponseHeaderV1Fields::lemma_round_trip(v, rest);
    }

    proof fn lemma_truncated(v: Self::Value, k: int) {
        ResponseHeaderV1Fields::lemma_truncated(v, k);
    }

    fn to_kafka_bytes(self, writer: &mut Vec<u8>) -> (r: Result<(), CodecError>) {
        let fields: ResponseHeaderV1Fields = (self.correlation_id, self.tag_buffer);
        fields.to_kafka_bytes(writer)
    }

    fn from_kafka_bytes(reader: &mut &[u8]) -> (r: Result<Self, CodecError>) {
        match ResponseHeaderV1Fields::from_kafka_bytes(reader) {
            Ok((correlation_id, tag_buffer)) => Ok(ResponseHeaderV1 { correlation_id,
                tag_buffer }),
            Err(e) => Err(e),
        }
    }
}

impl ResponseHeader for ResponseHeaderV1 {
    fn get_correlation_id(&self) -> (id: i32)
        ensures
            id == self.correlation_id,
    {
        self.correlation_id
    }
}

} // verus!
