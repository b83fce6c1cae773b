//! The request for the versions that a broker supports, and its responses.
use vstd::prelude::*;
use crate::codec::KafkaEncodable;
use crate::err::CodecError;
use crate::primitives::{Array, CompactArray, CompactString};
use crate::protocol::api_key::ApiKey;
use crate::protocol::err::ErrorCode;
use crate::protocol::tags::TaggedFields;
use crate::protocol::{ApiVersion, KafkaRequest, KafkaResponse};
use crate::tagged::{
    decode_payload, encode_payload, fields_error, lemma_payload_round_trip,
    lemma_tagged_round_trip, lemma_tagged_truncated, payload_value, read_tagged_fields,
    tagged_error, tagged_parse, tagged_unread, tagged_wire, tagged_written,
    write_tagged_fields, TaggedRecord, TaggedSchema,
};

verus! {

// requests
/// The request for the versions that a broker supports, versions 0 to 2.
#[derive(Debug, Clone, PartialEq, Eq)]
pub struct ApiVersionsRequestV0V2 {
}

/// The fields of [`ApiVersionsRequestV0V2`], in the order in which they are written.
pub type ApiVersionsRequestV0V2Fields = ();

impl KafkaEncodable for ApiVersionsRequestV0V2 {
    type Value = <ApiVersionsRequestV0V2Fields as KafkaEncodable>::Value;

    open spec fn value(&self) -> Self::Value {
        ()
    }

    open spec fn encode_error(v: Self::Value) -> Option<CodecError> {
        ApiVersionsRequestV0V2Fields::encode_error(v)
    }

    open spec fn wire(v: Self::Value) -> Seq<u8> {
        ApiVersionsRequestV0V2Fields::wire(v)
    }

    open spec fn parse(s: Seq<u8>) -> Result<(Self::Value, Seq<u8>), CodecError> {
        ApiVersionsRequestV0V2Fields::parse(s)
    }

    open spec fn written_before_error(v: Self::Value) -> Seq<u8> {
        ApiVersionsRequestV0V2Fields::written_before_error(v)
    }

    open spec fn unread_after_error(s: Seq<u8>) -> Seq<u8> {
        ApiVersionsRequestV0V2Fields::unread_after_error(s)
    }

    proof fn lemma_round_trip(v: Self::Value, rest: Seq<u8>) {
        ApiVersionsRequestV0V2Fields::lemma_round_trip(v, rest);
    }

    proof fn lemma_truncated(v: Self::Value, k: int) {
        ApiVersionsRequestV0V2Fields::lemma_truncated(v, k);
    }

    fn to_kafka_bytes(self, writer: &mut Vec<u8>) -> (r: Result<(), CodecError>) {
        let fields: ApiVersionsRequestV0V2Fields = ();
        fields.to_kafka_bytes(writer)
    }

    fn from_kafka_bytes(reader: &mut &[u8]) -> (r: Result<Self, CodecError>) {
        match ApiVersionsRequestV0V2Fields::from_kafka_bytes(reader) {
            Ok(()) => Ok(ApiVersionsRequestV0V2 {  }),
            Err(e) => Err(e),
        }
    }
}

impl KafkaRequest for ApiVersionsRequestV0V2 {
    open spec fn api_key() -> ApiKey {
        ApiKey::ApiVersions
    }

    open spec fn version() -> ApiVersion {
        2
    }

    open spec fn response_header_version() -> ApiVersion {
        0
    }

    fn get_api_key() -> (key: ApiKey) {
        ApiKey::ApiVersions
    }

    fn get_version() -> (version: ApiVersion) {
        2
    }

    fn get_response_header_version() -> (version: ApiVersion) {
        0
    }
}

/// The request for the versions that a broker supports, version 3.
#[derive(Debug, Clone, PartialEq, Eq)]
pub struct ApiVersionsRequestV3 {
    pub client_software_name: CompactString,
    pub client_software_version: CompactString,
    pub tag_buffer: TaggedFields,
}

/// The fields of [`ApiVersionsRequestV3`], in the order in which they are written.
pub type ApiVersionsRequestV3Fields = (CompactString, (CompactString, TaggedFields));

impl KafkaEncodable for ApiVersionsRequestV3 {
    type Value = <ApiVersionsRequestV3Fields as KafkaEncodable>::Value;

    open spec fn value(&self) -> Self::Value {
        (self.client_software_name.value(), (self.client_software_version.value(),
            self.tag_buffer.value()))
    }

    open spec fn encode_error(v: Self::Value) -> Option<CodecError> {
        ApiVersionsRequestV3Fields::encode_error(v)
    }

    open spec fn wire(v: Self::Value) -> Seq<u8> {
        ApiVersionsRequestV3Fields::wire(v)
    }

    open spec fn parse(s: Seq<u8>) -> Result<(Self::Value, Seq<u8>), CodecError> {
        ApiVersionsRequestV3Fields::parse(s)
    }

    open spec fn written_before_error(v: Self::Value) -> Seq<u8> {
        ApiVersionsRequestV3Fields::written_before_error(v)
    }

    open spec fn unread_after_error(s: Seq<u8>) -> Seq<u8> {
        ApiVersionsRequestV3Fields::unread_after_error(s)
    }

    proof fn lemma_round_trip(v: Self::Value, rest: Seq<u8>) {
        ApiVersionsRequestV3Fields::lemma_round_trip(v, rest);
    }

    proof fn lemma_truncated(v: Self::Value, k: int) {
        ApiVersionsRequestV3Fields::lemma_truncated(v, k);
    }

    fn to_kafka_bytes(self, writer: &mut Vec<u8>) -> (r: Result<(), CodecError>) {
        let fields: ApiVersionsRequestV3Fields = (self.client_software_name,
            (self.client_software_version, self.tag_buffer));
        fields.to_kafka_bytes(writer)
    }

    fn from_kafka_bytes(reader: &mut &[u8]) -> (r: Result<Self, CodecError>) {
        match ApiVersionsRequestV3Fields::from_kafka_bytes(reader) {
            Ok((client_software_name, (client_software_version,
                tag_buffer))) => Ok(ApiVersionsRequestV3 { client_software_name,
                client_software_version, tag_buffer }),
            Err(e) => Err(e),
        }
    }
}

impl KafkaRequest for ApiVersionsRequestV3 {
    open spec fn api_key() -> ApiKey {
        ApiKey::ApiVersions
    }

    open spec fn version() -> ApiVersion {
        3
    }

    open spec fn response_header_version() -> ApiVersion {
        0
    }

    fn get_api_key() -> (key: ApiKey) {
        ApiKey::ApiVersions
    }

    fn get_version() -> (version: ApiVersion) {
        3
    }

    fn get_response_header_version() -> (version: ApiVersion) {
        0
    }
}

// earlier versions of the response
/// The versions that a broker supports, version 0.
#[derive(Debug, Clone, PartialEq, Eq)]
pub struct ApiVersionsResponseV0 {
    pub error_code: ErrorCode,
    pub api_keys: Array<SupportedApiKeyVersionsV0V2>,
}

/// The fields of [`ApiVersionsResponseV0`], in the order in which they are written.
pub type ApiVersionsResponseV0Fields = (ErrorCode, Array<SupportedApiKeyVersionsV0V2>);

impl KafkaEncodable for ApiVersionsResponseV0 {
    type Value = <ApiVersionsResponseV0Fields as KafkaEncodable>::Value;

    open spec fn value(&self) -> Self::Value {
        (self.error_code.value(), self.api_keys.value())
    }

    open spec fn encode_error(v: Self::Value) -> Option<CodecError> {
        ApiVersionsResponseV0Fields::encode_error(v)
    }

    open spec fn wire(v: Self::Value) -> Seq<u8> {
        ApiVersionsResponseV0Fields::wire(v)
    }

    open spec fn parse(s: Seq<u8>) -> Result<(Self::Value, Seq<u8>), CodecError> {
        ApiVersionsResponseV0Fields::parse(s)
    }

    open spec fn written_before_error(v: Self::Value) -> Seq<u8> {
        ApiVersionsResponseV0Fields::written_before_error(v)
    }

    open spec fn unread_after_error(s: Seq<u8>) -> Seq<u8> {
        ApiVersionsResponseV0Fields::unread_after_error(s)
    }

    proof fn lemma_round_trip(v: Self::Value, rest: Seq<u8>) {
        ApiVersionsResponseV0Fields::lemma_round_trip(v, rest);
    }

    proof fn lemma_truncated(v: Self::Value, k: int) {
        ApiVersionsResponseV0Fields::lemma_truncated(v, k);
    }

    fn to_kafka_bytes(self, writer: &mut Vec<u8>) -> (r: Result<(), CodecError>) {
        let fields: ApiVersionsResponseV0Fields = (self.error_code, self.api_keys);
        fields.to_kafka_bytes(writer)
    }

    fn from_kafka_bytes(reader: &mut &[u8]) -> (r: Result<Self, CodecError>) {
        match ApiVersionsResponseV0Fields::from_kafka_bytes(reader) {
            Ok((error_code, api_keys)) => Ok(ApiVersionsResponseV0 { error_code, api_keys }),
            Err(e) => Err(e),
        }
    }
}

/// The versions of one request that a broker supports, versions 0 to 2.
#[derive(Debug, Clone, PartialEq, Eq)]
pub struct SupportedApiKeyVersionsV0V2 {
    pub api_key: ApiKey,
    pub min_version: ApiVersion,
    pub max_version: ApiVersion,
}

/// The fields of [`SupportedApiKeyVersionsV0V2`], in the order in which they are written.
pub type SupportedApiKeyVersionsV0V2Fields = (ApiKey, (ApiVersion, ApiVersion));

impl KafkaEncodable for SupportedApiKeyVersionsV0V2 {
    type Value = <SupportedApiKeyVersionsV0V2Fields as KafkaEncodable>::Value;

    open spec fn value(&self) -> Self::Value {
        (self.api_key.value(), (self.min_version.value(), self.max_version.value()))
    }

    open spec fn encode_error(v: Self::Value) -> Option<CodecError> {
        SupportedApiKeyVersionsV0V2Fields::encode_error(v)
    }

    open spec fn wire(v: Self::Value) -> Seq<u8> {
        SupportedApiKeyVersionsV0V2Fields::wire(v)
    }

    open spec fn parse(s: Seq<u8>) -> Result<(Self::Value, Seq<u8>), CodecError> {
        SupportedApiKeyVersionsV0V2Fields::parse(s)
    }

    open spec fn written_before_error(v: Self::Value) -> Seq<u8> {
        SupportedApiKeyVersionsV0V2Fields::written_before_error(v)
    }

    open spec fn unread_after_error(s: Seq<u8>) -> Seq<u8> {
        SupportedApiKeyVersionsV0V2Fields::unread_after_error(s)
    }

    proof fn lemma_round_trip(v: Self::Value, rest: Seq<u8>) {
        SupportedApiKeyVersionsV0V2Fields::lemma_round_trip(v, rest);
    }

    proof fn lemma_truncated(v: Self::Value, k: int) {
        SupportedApiKeyVersionsV0V2Fields::lemma_truncated(v, k);
    }

    fn to_kafka_bytes(self, writer: &mut Vec<u8>) -> (r: Result<(), CodecError>) {
        let fields: SupportedApiKeyVersionsV0V2Fields = (self.api_key, (self.min_version,
            self.max_version));
        fields.to_kafka_bytes(writer)
    }

    fn from_kafka_bytes(reader: &mut &[u8]) -> (r: Result<Self, CodecError>) {
        match SupportedApiKeyVersionsV0V2Fields::from_kafka_bytes(reader) {
            Ok((api_key, (min_version, max_version))) => Ok(SupportedApiKeyVersionsV0V2 { api_key,
                min_version, max_version }),
            Err(e) => Err(e),
        }
    }
}

/// The versions that a broker supports, versions 1 and 2.
#[derive(Debug, Clone, PartialEq, Eq)]
pub struct ApiVersionsResponseV1V2 {
    pub error_code: ErrorCode,
    pub api_keys: Array<SupportedApiKeyVersionsV0V2>,
    pub throttle_time_ms: i32,
}

/// The fields of [`ApiVersionsResponseV1V2`], in the order in which they are written.
pub type ApiVersionsResponseV1V2Fields = (ErrorCode, (Array<SupportedApiKeyVersionsV0V2>, i32));

impl KafkaEncodable for ApiVersionsResponseV1V2 {
    type Value = <ApiVersionsResponseV1V2Fields as KafkaEncodable>::Value;

    open spec fn value(&self) -> Self::Value {
        (self.error_code.value(), (self.api_keys.value(), self.throttle_time_ms.value()))
    }

    open spec fn encode_error(v: Self::Value) -> Option<CodecError> {
        ApiVersionsResponseV1V2Fields::encode_error(v)
    }

    open spec fn wire(v: Self::Value) -> Seq<u8> {
        ApiVersionsResponseV1V2Fields::wire(v)
    }

    open spec fn parse(s: Seq<u8>) -> Result<(Self::Value, Seq<u8>), CodecError> {
        ApiVersionsResponseV1V2Fields::parse(s)
    }

    open spec fn written_before_error(v: Self::Value) -> Seq<u8> {
        ApiVersionsResponseV1V2Fields::written_before_error(v)
    }

    open spec fn unread_after_error(s: Seq<u8>) -> Seq<u8> {
        ApiVersionsResponseV1V2Fields::unread_after_error(s)
    }

    proof fn lemma_round_trip(v: Self::Value, rest: Seq<u8>) {
        ApiVersionsResponseV1V2Fields::lemma_round_trip(v, rest);
    }

    proof fn lemma_truncated(v: Self::Value, k: int) {
        ApiVersionsResponseV1V2Fields::lemma_truncated(v, k);
    }

    fn to_kafka_bytes(self, writer: &mut Vec<u8>) -> (r: Result<(), CodecError>) {
        let fields: ApiVersionsResponseV1V2Fields = (self.error_code, (self.api_keys,
            self.throttle_time_ms));
        fields.to_kafka_bytes(writer)
    }

    fn from_kafka_bytes(reader: &mut &[u8]) -> (r: Result<Self, CodecError>) {
        match ApiVersionsResponseV1V2Fields::from_kafka_bytes(reader) {
            Ok((error_code, (api_keys,
                throttle_time_ms))) => Ok(ApiVersionsResponseV1V2 { error_code, api_keys,
                throttle_time_ms }),
            Err(e) => Err(e),
        }
    }
}

// latest version of the response
/// The versions that a broker supports, version 3.
#[derive(Debug, Clone, PartialEq, Eq)]
pub struct ApiVersionsResponseV3 {
    pub error_code: ErrorCode,
    pub api_keys: CompactArray<SupportedApiKeyVersionsV3>,
    pub throttle_time_ms: i32,
    pub tag_buffer: ApiVersionsResponseV3TaggedFields,
}

/// The fields of [`ApiVersionsResponseV3`], in the order in which they are written.
pub type ApiVersionsResponseV3Fields = (ErrorCode, (CompactArray<SupportedApiKeyVersionsV3>, (i32,
    ApiVersionsResponseV3TaggedFields)));

impl KafkaEncodable for ApiVersionsResponseV3 {
    type Value = <ApiVersionsResponseV3Fields as KafkaEncodable>::Value;

    open spec fn value(&self) -> Self::Value {
        (self.error_code.value(), (self.api_keys.value(), (self.throttle_time_ms.value(),
            self.tag_buffer.value())))
    }

    open spec fn encode_error(v: Self::Value) -> Option<CodecError> {
        ApiVersionsResponseV3Fields::encode_error(v)
    }

    open spec fn wire(v: Self::Value) -> Seq<u8> {
        ApiVersionsResponseV3Fields::wire(v)
    }

    open spec fn parse(s: Seq<u8>) -> Result<(Self::Value, Seq<u8>), CodecError> {
        ApiVersionsResponseV3Fields::parse(s)
    }

    open spec fn written_before_error(v: Self::Value) -> Seq<u8> {
        ApiVersionsResponseV3Fields::written_before_error(v)
    }

    open spec fn unread_after_error(s: Seq<u8>) -> Seq<u8> {
        ApiVersionsResponseV3Fields::unread_after_error(s)
    }

    proof fn lemma_round_trip(v: Self::Value, rest: Seq<u8>) {
        ApiVersionsResponseV3Fields::lemma_round_trip(v, rest);
    }

    proof fn lemma_truncated(v: Self::Value, k: int) {
        ApiVersionsResponseV3Fields::lemma_truncated(v, k);
    }

    fn to_kafka_bytes(self, writer: &mut Vec<u8>) -> (r: Result<(), CodecError>) {
        let fields: ApiVersionsResponseV3Fields = (self.error_code, (self.api_keys,
            (self.throttle_time_ms, self.tag_buffer)));
        fields.to_kafka_bytes(writer)
    }

    fn from_kafka_bytes(reader: &mut &[u8]) -> (r: Result<Self, CodecError>) {
        match ApiVersionsResponseV3Fields::from_kafka_bytes(reader) {
            Ok((error_code, (api_keys, (throttle_time_ms,
                tag_buffer)))) => Ok(ApiVersionsResponseV3 { error_code, api_keys,
                throttle_time_ms, tag_buffer }),
            Err(e) => Err(e),
        }
    }
}

impl KafkaResponse for ApiVersionsResponseV3 {

}

/// The versions of one request that a broker supports, version 3.
#[derive(Debug, Clone, PartialEq, Eq)]
pub struct SupportedApiKeyVersionsV3 {
    pub api_key: ApiKey,
    pub min_version: ApiVersion,
    pub max_version: ApiVersion,
    pub tag_buffer: TaggedFields,
}

/// The fields of [`SupportedApiKeyVersionsV3`], in the order in which they are written.
pub type SupportedApiKeyVersionsV3Fields = (ApiKey, (ApiVersion, (ApiVersion, TaggedFields)));

impl KafkaEncodable for SupportedApiKeyVersionsV3 {
    type Value = <SupportedApiKeyVersionsV3Fields as KafkaEncodable>::Value;

    open spec fn value(&self) -> Self::Value {
        (self.api_key.value(), (self.min_version.value(), (self.max_version.value(),
            self.tag_buffer.value())))
    }

    open spec fn encode_error(v: Self::Value) -> Option<CodecError> {
        SupportedApiKeyVersionsV3Fields::encode_error(v)
    }

    open spec fn wire(v: Self::Value) -> Seq<u8> {
        SupportedApiKeyVersionsV3Fields::wire(v)
    }

    open spec fn parse(s: Seq<u8>) -> Result<(Self::Value, Seq<u8>), CodecError> {
        SupportedApiKeyVersionsV3Fields::parse(s)
    }

    open spec fn written_before_error(v: Self::Value) -> Seq<u8> {
        SupportedApiKeyVersionsV3Fields::written_before_error(v)
    }

    open spec fn unread_after_error(s: Seq<u8>) -> Seq<u8> {
        SupportedApiKeyVersionsV3Fields::unread_after_error(s)
    }

    proof fn lemma_round_trip(v: Self::Value, rest: Seq<u8>) {
        SupportedApiKeyVersionsV3Fields::lemma_round_trip(v, rest);
    }

    proof fn lemma_truncated(v: Self::Value, k: int) {
        SupportedApiKeyVersionsV3Fields::lemma_truncated(v, k);
    }

    fn to_kafka_bytes(self, writer: &mut Vec<u8>) -> (r: Result<(), CodecError>) {
        let fields: SupportedApiKeyVersionsV3Fields = (self.api_key, (self.min_version,
            (self.max_version, self.tag_buffer)));
        fields.to_kafka_bytes(writer)
    }

    fn from_kafka_bytes(reader: &mut &[u8]) -> (r: Result<Self, CodecError>) {
        match SupportedApiKeyVersionsV3Fields::from_kafka_bytes(reader) {
            Ok((api_key, (min_version, (max_version,
                tag_buffer)))) => Ok(SupportedApiKeyVersionsV3 { api_key, min_version,
                max_version, tag_buffer }),
            Err(e) => Err(e),
        }
    }
}

/// A feature that a broker supports.
#[derive(Debug, Clone, PartialEq, Eq)]
pub struct SupportedFeatureKeyV3 {
    pub name: String,
    pub min_version: i16,
    pub max_version: i16,
    pub tag_buffer: TaggedFields,
}

/// The fields of [`SupportedFeatureKeyV3`], in the order in which they are written.
pub type SupportedFeatureKeyV3Fields = (String, (i16, (i16, TaggedFields)));

impl KafkaEncodable for SupportedFeatureKeyV3 {
    type Value = <SupportedFeatureKeyV3Fields as KafkaEncodable>::Value;

    open spec fn value(&self) -> Self::Value {
        (self.name.value(), (self.min_version.value(), (self.max_version.value(),
            self.tag_buffer.value())))
    }

    open spec fn encode_error(v: Self::Value) -> Option<CodecError> {
        SupportedFeatureKeyV3Fields::encode_error(v)
    }

    open spec fn wire(v: Self::Value) -> Seq<u8> {
        SupportedFeatureKeyV3Fields::wire(v)
    }

    open spec fn parse(s: Seq<u8>) -> Result<(Self::Value, Seq<u8>), CodecError> {
        SupportedFeatureKeyV3Fields::parse(s)
    }

    open spec fn written_before_error(v: Self::Value) -> Seq<u8> {
        SupportedFeatureKeyV3Fields::written_before_error(v)
    }

    open spec fn unread_after_error(s: Seq<u8>) -> Seq<u8> {
        SupportedFeatureKeyV3Fields::unread_after_error(s)
    }

    proof fn lemma_round_trip(v: Self::Value, rest: Seq<u8>) {
        SupportedFeatureKeyV3Fields::lemma_round_trip(v, rest);
    }

    proof fn lemma_truncated(v: Self::Value, k: int) {
        SupportedFeatureKeyV3Fields::lemma_truncated(v, k);
    }

    fn to_kafka_bytes(self, writer: &mut Vec<u8>) -> (r: Result<(), CodecError>) {
        let fields: SupportedFeatureKeyV3Fields = (self.name, (self.min_version,
            (self.max_version, self.tag_buffer)));
        fields.to_kafka_bytes(writer)
    }

    fn from_kafka_bytes(reader: &mut &[u8]) -> (r: Result<Self, CodecError>) {
        match SupportedFeatureKeyV3Fields::from_kafka_bytes(reader) {
            Ok((name, (min_version, (max_version,
                tag_buffer)))) => Ok(SupportedFeatureKeyV3 { name, min_version, max_version,
                tag_buffer }),
            Err(e) => Err(e),
        }
    }
}

/// A feature that a cluster has finalized.
#[derive(Debug, Clone, PartialEq, Eq)]
pub struct FinalizedFeatureKeyV3 {
    pub name: String,
    pub min_version: i16,
    pub max_version: i16,
    pub tag_buffer: TaggedFields,
}

/// The fields of [`FinalizedFeatureKeyV3`], in the order in which they are written.
pub type FinalizedFeatureKeyV3Fields = (String, (i16, (i16, TaggedFields)));

impl KafkaEncodable for FinalizedFeatureKeyV3 {
    type Value = <FinalizedFeatureKeyV3Fields as KafkaEncodable>::Value;

    open spec fn value(&self) -> Self::Value {
        (self.name.value(), (self.min_version.value(), (self.max_version.value(),
            self.tag_buffer.value())))
    }

    open spec fn encode_error(v: Self::Value) -> Option<CodecError> {
        FinalizedFeatureKeyV3Fields::encode_error(v)
    }

    open spec fn wire(v: Self::Value) -> Seq<u8> {
        FinalizedFeatureKeyV3Fields::wire(v)
    }

    open spec fn parse(s: Seq<u8>) -> Result<(Self::Value, Seq<u8>), CodecError> {
        FinalizedFeatureKeyV3Fields::parse(s)
    }

    open spec fn written_before_error(v: Self::Value) -> Seq<u8> {
        FinalizedFeatureKeyV3Fields::written_before_error(v)
    }

    open spec fn unread_after_error(s: Seq<u8>) -> Seq<u8> {
        FinalizedFeatureKeyV3Fields::unread_after_error(s)
    }

    proof fn lemma_round_trip(v: Self::Value, rest: Seq<u8>) {
        FinalizedFeatureKeyV3Fields::lemma_round_trip(v, rest);
    }

    proof fn lemma_truncated(v: Self::Value, k: int) {
        FinalizedFeatureKeyV3Fields::lemma_truncated(v, k);
    }

    fn to_kafka_bytes(self, writer: &mut Vec<u8>) -> (r: Result<(), CodecError>) {
        let fields: FinalizedFeatureKeyV3Fields = (self.name, (self.min_version,
            (self.max_version, self.tag_buffer)));
        fields.to_kafka_bytes(writer)
    }

    fn from_kafka_bytes(reader: &mut &[u8]) -> (r: Result<Self, CodecError>) {
        match FinalizedFeatureKeyV3Fields::from_kafka_bytes(reader) {
            Ok((name, (min_version, (max_version,
                tag_buffer)))) => Ok(FinalizedFeatureKeyV3 { name, min_version, max_version,
                tag_buffer }),
            Err(e) => Err(e),
        }
    }
}

/// The tagged fields of [`ApiVersionsResponseV3`].
#[derive(Debug, Clone, PartialEq, Eq)]
pub struct ApiVersionsResponseV3TaggedFields {
    /// Tag 0.
    pub supported_features: Option<CompactArray<SupportedFeatureKeyV3>>,
    /// Tag 1.
    pub finalized_features_epoch: Option<i64>,
    /// Tag 2.
    pub finalized_features: Option<CompactArray<FinalizedFeatureKeyV3>>,
}

/// The value of an optional field.
pub open spec fn optional_value<T: KafkaEncodable>(field: Option<T>) -> Option<T::Value> {
    match field {
        Some(x) => Some(x.value()),
        None => None,
    }
}

/// The payload of an optional field; no bytes where the field is absent.
pub open spec fn optional_wire<T: KafkaEncodable>(field: Option<T::Value>) -> Seq<u8> {
    match field {
        Some(x) => T::wire(x),
        None => Seq::<u8>::empty(),
    }
}

/// The error of writing an optional field; none where the field is absent.
pub open spec fn optional_error<T: KafkaEncodable>(field: Option<T::Value>) -> Option<
    CodecError,
> {
    match field {
        Some(x) => T::encode_error(x),
        None => None,
    }
}

impl TaggedSchema for ApiVersionsResponseV3TaggedFields {
    type Fields = (
        Option<<CompactArray<SupportedFeatureKeyV3> as KafkaEncodable>::Value>,
        Option<i64>,
        Option<<CompactArray<FinalizedFeatureKeyV3> as KafkaEncodable>::Value>,
    );

    open spec fn fields(&self) -> Self::Fields {
        (
            optional_value(self.supported_features),
            optional_value(self.finalized_features_epoch),
            optional_value(self.finalized_features),
        )
    }

    open spec fn field_count() -> nat {
        3
    }

    open spec fn blank() -> Self::Fields {
        (None, None, None)
    }

    open spec fn is_set(v: Self::Fields, tag: nat) -> bool {
        if tag == 0 {
            v.0 is Some
        } else if tag == 1 {
            v.1 is Some
        } else if tag == 2 {
            v.2 is Some
        } else {
            false
        }
    }

    open spec fn field_wire(v: Self::Fields, tag: nat) -> Seq<u8> {
        if tag == 0 {
            optional_wire::<CompactArray<SupportedFeatureKeyV3>>(v.0)
        } else if tag == 1 {
            optional_wire::<i64>(v.1)
        } else if tag == 2 {
            optional_wire::<CompactArray<FinalizedFeatureKeyV3>>(v.2)
        } else {
            Seq::<u8>::empty()
        }
    }

    open spec fn field_error(v: Self::Fields, tag: nat) -> Option<CodecError> {
        if tag == 0 {
            optional_error::<CompactArray<SupportedFeatureKeyV3>>(v.0)
        } else if tag == 1 {
            optional_error::<i64>(v.1)
        } else if tag == 2 {
            optional_error::<CompactArray<FinalizedFeatureKeyV3>>(v.2)
        } else {
            None
        }
    }

    open spec fn with_field(acc: Self::Fields, tag: nat, payload: Seq<u8>) -> Result<
        Self::Fields,
        CodecError,
    > {
        if tag == 0 {
            match payload_value::<CompactArray<SupportedFeatureKeyV3>>(payload) {
                Ok(x) => Ok((Some(x), acc.1, acc.2)),
                Err(e) => Err(e),
            }
        } else if tag == 1 {
            match payload_value::<i64>(payload) {
                Ok(x) => Ok((acc.0, Some(x), acc.2)),
                Err(e) => Err(e),
            }
        } else if tag == 2 {
            match payload_value::<CompactArray<FinalizedFeatureKeyV3>>(payload) {
                Ok(x) => Ok((acc.0, acc.1, Some(x))),
                Err(e) => Err(e),
            }
        } else {
            Ok(acc)
        }
    }

    open spec fn first_fields(v: Self::Fields, n: nat) -> Self::Fields {
        (
            if n > 0 {
                v.0
            } else {
                None
            },
            if n > 1 {
                v.1
            } else {
                None
            },
            if n > 2 {
                v.2
            } else {
                None
            },
        )
    }

    proof fn lemma_first_fields(v: Self::Fields) {
    }

    proof fn lemma_next_field(v: Self::Fields, tag: nat) {
        if Self::is_set(v, tag) && Self::field_error(v, tag) is None {
            if tag == 0 {
                lemma_payload_round_trip::<CompactArray<SupportedFeatureKeyV3>>(v.0->0);
            } else if tag == 1 {
                lemma_payload_round_trip::<i64>(v.1->0);
            } else if tag == 2 {
                lemma_payload_round_trip::<CompactArray<FinalizedFeatureKeyV3>>(v.2->0);
            } else {
                
            }
        }
    }
}

impl TaggedRecord for ApiVersionsResponseV3TaggedFields {
    fn known_fields() -> (n: u32) {
        3
    }

    fn empty() -> (r: Self) {
        ApiVersionsResponseV3TaggedFields {
            supported_features: None,
            finalized_features_epoch: None,
            finalized_features: None,
        }
    }

    fn has_field(&self, tag: u32) -> (b: bool) {
        if tag == 0 {
            self.supported_features.is_some()
        } else if tag == 1 {
            self.finalized_features_epoch.is_some()
        } else {
            self.finalized_features.is_some()
        }
    }

    fn store_field(self, tag: u32, payload: &[u8]) -> (r: Result<Self, CodecError>) {
        let mut record = self;
        if tag == 0 {
            match decode_payload::<CompactArray<SupportedFeatureKeyV3>>(payload) {
                Ok(x) => {
                    record.supported_features = Some(x);
                },
                Err(e) => {
                    return Err(e);
                },
            }
        } else if tag == 1 {
            match decode_payload::<i64>(payload) {
                Ok(x) => {
                    record.finalized_features_epoch = Some(x);
                },
                Err(e) => {
                    return Err(e);
                },
            }
        } else {
            match decode_payload::<CompactArray<FinalizedFeatureKeyV3>>(payload) {
                Ok(x) => {
                    record.finalized_features = Some(x);
                },
                Err(e) => {
                    return Err(e);
                },
            }
        }
        Ok(record)
    }

    fn payloads(self) -> (r: Result<Vec<Option<Vec<u8>>>, CodecError>) {
        proof {
            reveal_with_fuel(fields_error, 4);
        }
        let mut all: Vec<Option<Vec<u8>>> = Vec::new();
        match encode_payload(self.supported_features) {
            Ok(payload) => {
                all.push(payload);
            },
            Err(e) => {
                return Err(e);
            },
        }
        match encode_payload(self.finalized_features_epoch) {
            Ok(payload) => {
                all.push(payload);
            },
            Err(e) => {
                return Err(e);
            },
        }
        match encode_payload(self.finalized_features) {
            Ok(payload) => {
                all.push(payload);
            },
            Err(e) => {
                return Err(e);
            },
        }
        Ok(all)
    }
}

impl KafkaEncodable for ApiVersionsResponseV3TaggedFields {
    type Value = <ApiVersionsResponseV3TaggedFields as TaggedSchema>::Fields;

    open spec fn value(&self) -> Self::Value {
        self.fields()
    }

    open spec fn encode_error(v: Self::Value) -> Option<CodecError> {
        tagged_error::<Self>(v)
    }

    open spec fn wire(v: Self::Value) -> Seq<u8> {
        tagged_wire::<Self>(v)
    }

    open spec fn parse(s: Seq<u8>) -> Result<(Self::Value, Seq<u8>), CodecError> {
        tagged_parse::<Self>(s)
    }

    open spec fn written_before_error(v: Self::Value) -> Seq<u8> {
        tagged_written::<Self>(v)
    }

    open spec fn unread_after_error(s: Seq<u8>) -> Seq<u8> {
        tagged_unread::<Self>(s)
    }

    proof fn lemma_round_trip(v: Self::Value, rest: Seq<u8>) {
        lemma_tagged_round_trip::<Self>(v, rest);
    }

    proof fn lemma_truncated(v: Self::Value, k: int) {
        lemma_tagged_truncated::<Self>(v, k);
    }

    fn to_kafka_bytes(self, writer: &mut Vec<u8>) -> (r: Result<(), CodecError>) {
        write_tagged_fields(self, writer)
    }

    fn from_kafka_bytes(reader: &mut &[u8]) -> (r: Result<Self, CodecError>) {
        read_tagged_fields::<Self>(reader)
    }
}

} // verus!
