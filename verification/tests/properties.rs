use kafka_encode::err::{CodecError, TooManyBytesError};
use kafka_encode::primitives::{
    Array, CompactArray, CompactBytes, CompactNullableArray, CompactNullableBytes,
    CompactNullableString, CompactString, NullableArray, NullableBytes, NullableString,
    UnsignedVarInt32, VarArray, VarI32, VarI64,
};
use kafka_encode::protocol::api_key::ApiKey;
use kafka_encode::protocol::api_versions::{
    ApiVersionsRequestV0V2, ApiVersionsRequestV3, ApiVersionsResponseV3,
    ApiVersionsResponseV3TaggedFields, FinalizedFeatureKeyV3, SupportedFeatureKeyV3,
};
use kafka_encode::protocol::err::ErrorCode;
use kafka_encode::protocol::headers::{ResponseHeader, ResponseHeaderV0, ResponseHeaderV1};
use kafka_encode::protocol::networking::{
    decode_response, deserialize_response_header_and_get_correlation_id, encode_request,
    ExchangeError,
};
use kafka_encode::protocol::records::{Record, RecordBatch, RecordHeader};
use kafka_encode::protocol::requests::PairWithI32EncodedSize;
use kafka_encode::protocol::tags::{RawTaggedField, TaggedFields};
use kafka_encode::protocol::KafkaRequest;
use kafka_encode::scalars::{read_float64_bits, write_float64_bits};
use kafka_encode::sized::{
    read_bytes_with_unsigned_varint_size_header, write_bytes_with_unsigned_varint_size_header,
};
use kafka_encode::tagged::{read_tagged_fields, write_tagged_fields};
use kafka_encode::KafkaEncodable;
use std::fmt::Debug;
use uuid::Uuid;

fn encoded<T: KafkaEncodable>(object: T) -> Vec<u8> {
    let mut bytes: Vec<u8> = Vec::new();
    object.to_kafka_bytes(&mut bytes).expect("the value can be written");
    bytes
}

fn decoded<T: KafkaEncodable>(bytes: &[u8]) -> Result<T, CodecError> {
    let mut reader: &[u8] = bytes;
    T::from_kafka_bytes(&mut reader)
}

/// Writes the value, reads it back with bytes behind it, and reads every shorter front.
fn check_laws<T: KafkaEncodable + PartialEq + Debug + Clone>(object: T) {
    let bytes = encoded(object.clone());

    let mut followed = bytes.clone();
    followed.extend_from_slice(&[0xde, 0xad]);
    let mut reader: &[u8] = &followed;
    let read = T::from_kafka_bytes(&mut reader).expect("what was written can be read");
    assert_eq!(read, object);
    assert_eq!(reader, &[0xde, 0xad]);

    for cut in 0..bytes.len() {
        let mut short: &[u8] = &bytes[..cut];
        match T::from_kafka_bytes(&mut short) {
            Err(CodecError::ShortRead) => {}
            other => panic!("cut at {} of {:?}: {:?}", cut, bytes, other),
        }
    }
}

fn sample_record() -> Record {
    Record {
        length: VarI32(300),
        attributes: 7,
        timestamp_delta: VarI64(-5_000_000_000),
        offset_delta: VarI32(-1),
        key: CompactNullableBytes(None),
        value: CompactNullableBytes(Some(vec![1, 2, 3])),
        headers: NullableArray(Some(vec![
            RecordHeader {
                key: CompactString(String::from("k")),
                value: CompactNullableBytes(Some(vec![])),
            },
            RecordHeader {
                key: CompactString(String::from("grüße")),
                value: CompactNullableBytes(None),
            },
        ])),
    }
}

#[test]
fn round_trip_and_truncation_of_scalars() {
    check_laws(true);
    check_laws(false);
    for v in [0u8, 1, 127, 128, 255] {
        check_laws(v);
    }
    for v in [i8::MIN, -1, 0, 1, i8::MAX] {
        check_laws(v);
    }
    for v in [i16::MIN, -257, -1, 0, 1, 258, i16::MAX] {
        check_laws(v);
    }
    for v in [i32::MIN, -65_537, -1, 0, 1, 65_538, i32::MAX] {
        check_laws(v);
    }
    for v in [i64::MIN, -4_294_967_297, -1, 0, 1, 4_294_967_298, i64::MAX] {
        check_laws(v);
    }
    for v in [0u32, 1, 0x0102_0304, u32::MAX] {
        check_laws(v);
    }
    check_laws(Uuid::from_u128(0));
    check_laws(Uuid::from_u128(0x0102_0304_0506_0708_090a_0b0c_0d0e_0f10));
    check_laws(Uuid::from_u128(u128::MAX));
    check_laws(ApiKey::Produce);
    check_laws(ApiKey::AllocateProducerIds);
    check_laws(ErrorCode::UnknownServerError);
    check_laws(ErrorCode::NewLeaderElected);
}

#[test]
fn fixed_width_integers_are_big_endian() {
    assert_eq!(encoded(0x0102i16), vec![1, 2]);
    assert_eq!(encoded(-2i16), vec![0xff, 0xfe]);
    assert_eq!(encoded(0x0102_0304i32), vec![1, 2, 3, 4]);
    assert_eq!(encoded(0x0102_0304u32), vec![1, 2, 3, 4]);
    assert_eq!(encoded(0x0102_0304_0506_0708i64), vec![1, 2, 3, 4, 5, 6, 7, 8]);
    assert_eq!(
        encoded(Uuid::from_u128(0x0102_0304_0506_0708_090a_0b0c_0d0e_0f10)),
        vec![1, 2, 3, 4, 5, 6, 7, 8, 9, 10, 11, 12, 13, 14, 15, 16]
    );
    assert_eq!(encoded(ApiKey::ApiVersions), vec![0, 18]);
    assert_eq!(encoded(ErrorCode::UnknownServerError), vec![255, 255]);
}

#[test]
fn every_byte_is_a_boolean() {
    assert_eq!(decoded::<bool>(&[0]), Ok(false));
    assert_eq!(decoded::<bool>(&[1]), Ok(true));
    assert_eq!(decoded::<bool>(&[2]), Ok(true));
    assert_eq!(decoded::<bool>(&[255]), Ok(true));
}

#[test]
fn varint_boundaries() {
    assert_eq!(encoded(VarI32(0)), vec![0]);
    assert_eq!(encoded(VarI32(-1)), vec![1]);
    assert_eq!(encoded(VarI32(1)), vec![2]);
    assert_eq!(encoded(VarI32(i32::MAX)), vec![0xfe, 0xff, 0xff, 0xff, 0x0f]);
    assert_eq!(encoded(VarI32(i32::MIN)), vec![0xff, 0xff, 0xff, 0xff, 0x0f]);
    assert_eq!(encoded(VarI64(0)), vec![0]);
    assert_eq!(encoded(VarI64(-1)), vec![1]);
    assert_eq!(encoded(VarI64(1)), vec![2]);
    assert_eq!(
        encoded(VarI64(i64::MAX)),
        vec![0xfe, 0xff, 0xff, 0xff, 0xff, 0xff, 0xff, 0xff, 0xff, 0x01]
    );
    assert_eq!(
        encoded(VarI64(i64::MIN)),
        vec![0xff, 0xff, 0xff, 0xff, 0xff, 0xff, 0xff, 0xff, 0xff, 0x01]
    );
    assert_eq!(encoded(UnsignedVarInt32(0)), vec![0]);
    assert_eq!(encoded(UnsignedVarInt32(1)), vec![1]);
    assert_eq!(encoded(UnsignedVarInt32(127)), vec![0x7f]);
    assert_eq!(encoded(UnsignedVarInt32(128)), vec![0x80, 0x01]);
    assert_eq!(encoded(UnsignedVarInt32(300)), vec![0xac, 0x02]);
    assert_eq!(encoded(UnsignedVarInt32(u32::MAX)), vec![0xff, 0xff, 0xff, 0xff, 0x0f]);

    for v in [i32::MIN, i32::MIN + 1, -64, -1, 0, 1, 63, 64, i32::MAX - 1, i32::MAX] {
        check_laws(VarI32(v));
    }
    for v in [i64::MIN, i64::MIN + 1, -64, -1, 0, 1, 63, 64, i64::MAX - 1, i64::MAX] {
        check_laws(VarI64(v));
    }
    for v in [0u32, 1, 127, 128, 16_383, 16_384, u32::MAX - 1, u32::MAX] {
        check_laws(UnsignedVarInt32(v));
    }
}

#[test]
fn varint_that_does_not_end_is_malformed() {
    let five = [0x80u8, 0x80, 0x80, 0x80, 0x80];
    assert_eq!(decoded::<UnsignedVarInt32>(&five), Err(CodecError::MalformedVarInt));
    assert_eq!(decoded::<VarI32>(&five), Err(CodecError::MalformedVarInt));
    let six = [0x80u8, 0x80, 0x80, 0x80, 0x80, 0x00];
    assert_eq!(decoded::<UnsignedVarInt32>(&six), Err(CodecError::MalformedVarInt));
    assert_eq!(decoded::<VarI32>(&six), Err(CodecError::MalformedVarInt));
    let four = [0x80u8, 0x80, 0x80, 0x80];
    assert_eq!(decoded::<UnsignedVarInt32>(&four), Err(CodecError::ShortRead));
    assert_eq!(decoded::<UnsignedVarInt32>(&[]), Err(CodecError::ShortRead));

    let ten = [0xffu8; 10];
    assert_eq!(decoded::<VarI64>(&ten), Err(CodecError::MalformedVarInt));
    let nine = [0xffu8; 9];
    assert_eq!(decoded::<VarI64>(&nine), Err(CodecError::ShortRead));
    // six bytes are fine for the wider type
    assert_eq!(decoded::<VarI64>(&six), Ok(VarI64(0)));
}

#[test]
fn varint_bits_beyond_the_width_are_dropped() {
    let wide = [0xffu8, 0xff, 0xff, 0xff, 0x7f];
    assert_eq!(decoded::<UnsignedVarInt32>(&wide), Ok(UnsignedVarInt32(u32::MAX)));
    assert_eq!(decoded::<VarI32>(&wide), Ok(VarI32(0)));
    let one_more = [0x80u8, 0x80, 0x80, 0x80, 0x10];
    assert_eq!(decoded::<UnsignedVarInt32>(&one_more), Ok(UnsignedVarInt32(0)));
    // a varint with more bytes than its number needs is read as the number
    assert_eq!(decoded::<UnsignedVarInt32>(&[0x80, 0x00]), Ok(UnsignedVarInt32(0)));
    assert_eq!(decoded::<VarI32>(&[0x81, 0x00]), Ok(VarI32(-1)));
    let widest = [0xffu8, 0xff, 0xff, 0xff, 0xff, 0xff, 0xff, 0xff, 0xff, 0x7f];
    assert_eq!(decoded::<VarI64>(&widest), Ok(VarI64(i64::MIN)));
}

#[test]
fn string_empty_and_null() {
    assert_eq!(encoded(String::from("")), vec![0, 0]);
    assert_eq!(encoded(NullableString(None)), vec![255, 255]);
    assert_eq!(encoded(CompactString(String::from(""))), vec![1]);
    assert_eq!(encoded(CompactNullableString(None)), vec![0]);
    assert_eq!(encoded(NullableBytes(None)), vec![255, 255, 255, 255]);
    assert_eq!(encoded(CompactNullableBytes(None)), vec![0]);
}

#[test]
fn round_trip_and_truncation_of_text_and_bytes() {
    for text in ["", "lol", "grüße", "日本語", "a\u{10ffff}b"] {
        check_laws(String::from(text));
        check_laws(CompactString(String::from(text)));
        check_laws(NullableString(Some(String::from(text))));
        check_laws(CompactNullableString(Some(String::from(text))));
    }
    check_laws(NullableString(None));
    check_laws(CompactNullableString(None));
    for bytes in [vec![], vec![0u8], vec![9, 8, 7, 6, 5], vec![255u8; 300]] {
        check_laws(bytes.clone());
        check_laws(CompactBytes(bytes.clone()));
        check_laws(NullableBytes(Some(bytes.clone())));
        check_laws(CompactNullableBytes(Some(bytes.clone())));
    }
    check_laws(NullableBytes(None));
    check_laws(CompactNullableBytes(None));
    assert_eq!(encoded(String::from("é")), vec![0, 2, 0xc3, 0xa9]);
    assert_eq!(encoded(CompactBytes(vec![7u8; 127])).len(), 2 + 127);
}

#[test]
fn text_must_be_utf8() {
    assert_eq!(decoded::<String>(&[0, 1, 0xff]), Err(CodecError::InvalidEncoding));
    assert_eq!(decoded::<String>(&[0, 2, 0xc3, 0x28]), Err(CodecError::InvalidEncoding));
    assert_eq!(decoded::<CompactString>(&[2, 0x80]), Err(CodecError::InvalidEncoding));
    assert_eq!(decoded::<NullableString>(&[0, 1, 0xc0]), Err(CodecError::InvalidEncoding));
    assert_eq!(
        decoded::<CompactNullableString>(&[4, 0xed, 0xa0, 0x80]),
        Err(CodecError::InvalidEncoding)
    );
    // the same bytes are fine as bytes
    assert_eq!(decoded::<CompactBytes>(&[2, 0x80]), Ok(CompactBytes(vec![0x80])));
}

#[test]
fn a_length_that_cannot_be_read_is_a_short_read() {
    assert_eq!(decoded::<i32>(&[]), Err(CodecError::ShortRead));
    assert_eq!(decoded::<i32>(&[0, 0, 0]), Err(CodecError::ShortRead));
    assert_eq!(decoded::<Uuid>(&[0; 15]), Err(CodecError::ShortRead));
    assert_eq!(decoded::<String>(&[0, 3, 108, 111]), Err(CodecError::ShortRead));
    // a negative length where null is not allowed, or is not this one
    assert_eq!(decoded::<String>(&[255, 255]), Err(CodecError::ShortRead));
    assert_eq!(decoded::<String>(&[255, 254]), Err(CodecError::ShortRead));
    assert_eq!(decoded::<NullableString>(&[255, 254]), Err(CodecError::ShortRead));
    assert_eq!(decoded::<Vec<u8>>(&[255, 255, 255, 255]), Err(CodecError::ShortRead));
    assert_eq!(decoded::<NullableBytes>(&[128, 0, 0, 0]), Err(CodecError::ShortRead));
    // a compact header of zero where null is not allowed
    assert_eq!(decoded::<CompactString>(&[0]), Err(CodecError::ShortRead));
    assert_eq!(decoded::<CompactBytes>(&[0]), Err(CodecError::ShortRead));
    assert_eq!(decoded::<CompactArray<i8>>(&[0]), Err(CodecError::ShortRead));
    assert_eq!(decoded::<CompactBytes>(&[0xff, 0xff, 0xff, 0xff, 0x0f]), Err(CodecError::ShortRead));
}

#[test]
fn a_length_that_the_header_cannot_hold_is_refused() {
    let longest = "x".repeat(32766);
    assert_eq!(encoded(longest.clone()).len(), 2 + 32766);
    assert_eq!(encoded(NullableString(Some(longest))).len(), 2 + 32766);
    let too_long = "x".repeat(32767);
    let mut writer: Vec<u8> = vec![42];
    assert_eq!(
        too_long.clone().to_kafka_bytes(&mut writer),
        Err(CodecError::TooManyBytes(TooManyBytesError { size: 32767 }))
    );
    assert_eq!(writer, vec![42]);
    assert_eq!(
        NullableString(Some(too_long.clone())).to_kafka_bytes(&mut writer),
        Err(CodecError::TooManyBytes(TooManyBytesError { size: 32767 }))
    );
    // the compact encoding has room for it
    assert_eq!(encoded(CompactString(too_long.clone())).len(), 3 + 32767);
    // the error of an element is the error of the array, and of the record around it
    let mut writer: Vec<u8> = Vec::new();
    assert_eq!(
        Array(vec![String::from("ok"), too_long.clone()]).to_kafka_bytes(&mut writer),
        Err(CodecError::TooManyBytes(TooManyBytesError { size: 32767 }))
    );
    assert_eq!(writer, vec![0, 0, 0, 2, 0, 2, 111, 107]);
    let fields = ApiVersionsResponseV3TaggedFields {
        supported_features: Some(CompactArray(vec![SupportedFeatureKeyV3 {
            name: too_long,
            min_version: 0,
            max_version: 1,
            tag_buffer: TaggedFields::new(),
        }])),
        finalized_features_epoch: Some(1),
        finalized_features: None,
    };
    let mut writer: Vec<u8> = vec![1, 2];
    assert_eq!(
        fields.to_kafka_bytes(&mut writer),
        Err(CodecError::TooManyBytes(TooManyBytesError { size: 32767 }))
    );
    assert_eq!(writer, vec![1, 2]);
}

#[test]
fn arrays_of_two_signed_varints() {
    assert_eq!(encoded(Array(vec![VarI32(1), VarI32(42)])), vec![0, 0, 0, 2, 2, 84]);
    assert_eq!(encoded(NullableArray(Some(vec![VarI32(1), VarI32(42)]))), vec![0, 0, 0, 2, 2, 84]);
    assert_eq!(encoded(CompactArray(vec![VarI32(1), VarI32(42)])), vec![3, 2, 84]);
    assert_eq!(encoded(CompactNullableArray(Some(vec![VarI32(1), VarI32(42)]))), vec![3, 2, 84]);
    assert_eq!(encoded(VarArray(vec![VarI32(1), VarI32(42)])), vec![2, 2, 84]);
    assert_eq!(encoded(NullableArray::<VarI32>(None)), vec![255, 255, 255, 255]);
    assert_eq!(encoded(CompactNullableArray::<VarI32>(None)), vec![0]);
    assert_eq!(encoded(CompactNullableArray::<VarI32>(Some(vec![]))), vec![1]);
    assert_eq!(encoded(VarArray::<VarI32>(vec![])), vec![0]);
}

#[test]
fn round_trip_and_truncation_of_arrays() {
    let words = vec![String::from("brown"), String::from(""), String::from("fox")];
    check_laws(Array(words.clone()));
    check_laws(NullableArray(Some(words.clone())));
    check_laws(NullableArray::<String>(None));
    check_laws(CompactArray(words.clone()));
    check_laws(CompactNullableArray(Some(words.clone())));
    check_laws(CompactNullableArray::<String>(None));
    check_laws(VarArray(words));
    check_laws(Array::<i64>(vec![]));
    check_laws(VarArray(vec![0u8, 1, 2, 255]));
    check_laws(Array(vec![CompactArray(vec![VarI64(-3)]), CompactArray(vec![])]));
    check_laws(Array(vec![ApiVersionsRequestV0V2 {}, ApiVersionsRequestV0V2 {}]));
}

#[test]
fn a_negative_count_announces_no_elements() {
    assert_eq!(decoded::<Array<i32>>(&[255, 255, 255, 255]), Ok(Array(vec![])));
    assert_eq!(decoded::<Array<i32>>(&[128, 0, 0, 0, 9]), Ok(Array(vec![])));
    assert_eq!(decoded::<NullableArray<i32>>(&[255, 255, 255, 254]), Ok(NullableArray(Some(vec![]))));
    assert_eq!(decoded::<NullableArray<i32>>(&[255, 255, 255, 255]), Ok(NullableArray(None)));
}

#[test]
fn elements_are_read_in_order_and_the_first_failure_ends_the_reading() {
    assert_eq!(decoded::<Array<String>>(&[0, 0, 0, 2, 0, 1, 97]), Err(CodecError::ShortRead));
    assert_eq!(
        decoded::<Array<String>>(&[0, 0, 0, 2, 0, 1, 0xff, 0, 1]),
        Err(CodecError::InvalidEncoding)
    );
    assert_eq!(
        decoded::<CompactArray<ApiKey>>(&[3, 0, 18, 0, 52]),
        Err(CodecError::UnrecognizedDiscriminant { value: 52 })
    );
    let mut reader: &[u8] = &[3, 0, 18, 0, 3, 77];
    assert_eq!(
        CompactArray::<ApiKey>::from_kafka_bytes(&mut reader),
        Ok(CompactArray(vec![ApiKey::ApiVersions, ApiKey::Metadata]))
    );
    assert_eq!(reader, &[77]);
}

#[test]
fn discriminants_map_both_ways() {
    let mut keys: usize = 0;
    let mut codes: usize = 0;
    for value in i16::MIN..=i16::MAX {
        match ApiKey::try_from(value) {
            Ok(key) => {
                keys += 1;
                assert_eq!(key.as_i16(), value);
            }
            Err(e) => assert_eq!(e, CodecError::UnrecognizedDiscriminant { value }),
        }
        match ErrorCode::try_from(value) {
            Ok(code) => {
                codes += 1;
                assert_eq!(code.as_i16(), value);
            }
            Err(e) => assert_eq!(e, CodecError::UnrecognizedDiscriminant { value }),
        }
    }
    assert_eq!(keys, 61);
    assert_eq!(codes, 110);
    assert_eq!(ApiKey::try_from(18), Ok(ApiKey::ApiVersions));
    assert_eq!(ApiKey::try_from(67), Ok(ApiKey::AllocateProducerIds));
    assert_eq!(ApiKey::try_from(52), Err(CodecError::UnrecognizedDiscriminant { value: 52 }));
    assert_eq!(ErrorCode::try_from(-1), Ok(ErrorCode::UnknownServerError));
    assert_eq!(ErrorCode::try_from(0), Ok(ErrorCode::NoError));
    assert_eq!(ErrorCode::try_from(108), Ok(ErrorCode::NewLeaderElected));
    assert_eq!(ErrorCode::try_from(109), Err(CodecError::UnrecognizedDiscriminant { value: 109 }));
    assert_eq!(decoded::<ApiKey>(&[0, 52]), Err(CodecError::UnrecognizedDiscriminant { value: 52 }));
    assert_eq!(decoded::<ErrorCode>(&[255, 254]), Err(CodecError::UnrecognizedDiscriminant { value: -2 }));
}

#[test]
fn round_trip_and_truncation_of_records() {
    check_laws(ApiVersionsRequestV0V2 {});
    check_laws(sample_record());
    check_laws(RecordBatch {
        base_offset: 1,
        batch_length: -2,
        partition_leader_epoch: 3,
        magic: 2,
        crc: -5,
        attributes: 6,
        last_offset_delta: 7,
        base_timestamp: 8,
        max_timestamp: 9,
        producer_id: -10,
        producer_epoch_offset: 11,
        base_sequence: 12,
        records: Array(vec![sample_record(), sample_record()]),
    });
    check_laws(TaggedFields {
        tags: VarArray(vec![
            RawTaggedField { tag: UnsignedVarInt32(3), data: VarArray(vec![1, 2, 3]) },
            RawTaggedField { tag: UnsignedVarInt32(300), data: VarArray(vec![]) },
        ]),
    });
    check_laws(PairWithI32EncodedSize(ResponseHeaderV0 { correlation_id: 5 }, sample_record()));
    assert_eq!(
        encoded(RecordHeader {
            key: CompactString(String::from("k")),
            value: CompactNullableBytes(None)
        }),
        vec![2, 107, 0]
    );
    assert_eq!(encoded(TaggedFields::new()), vec![0]);
    assert_eq!(TaggedFields::new(), TaggedFields { tags: VarArray(Vec::new()) });
}

#[test]
fn tagged_fields_with_only_the_second_field_set() {
    let fields = ApiVersionsResponseV3TaggedFields {
        supported_features: None,
        finalized_features_epoch: Some(0),
        finalized_features: None,
    };
    assert_eq!(encoded(fields.clone()), vec![1, 1, 8, 0, 0, 0, 0, 0, 0, 0, 0]);
    let mut by_function: Vec<u8> = Vec::new();
    write_tagged_fields(fields.clone(), &mut by_function).unwrap();
    assert_eq!(by_function, vec![1, 1, 8, 0, 0, 0, 0, 0, 0, 0, 0]);
    assert_eq!(
        decoded::<ApiVersionsResponseV3TaggedFields>(&[1, 1, 8, 0, 0, 0, 0, 0, 0, 0, 0]),
        Ok(fields)
    );
    let none = ApiVersionsResponseV3TaggedFields {
        supported_features: None,
        finalized_features_epoch: None,
        finalized_features: None,
    };
    assert_eq!(encoded(none.clone()), vec![0]);
    assert_eq!(decoded::<ApiVersionsResponseV3TaggedFields>(&[0]), Ok(none));
}

fn feature(name: &str) -> SupportedFeatureKeyV3 {
    SupportedFeatureKeyV3 {
        name: String::from(name),
        min_version: 1,
        max_version: 2,
        tag_buffer: TaggedFields::new(),
    }
}

#[test]
fn round_trip_and_truncation_of_tagged_fields() {
    let all = ApiVersionsResponseV3TaggedFields {
        supported_features: Some(CompactArray(vec![feature("a"), feature("bc")])),
        finalized_features_epoch: Some(-7),
        finalized_features: Some(CompactArray(vec![FinalizedFeatureKeyV3 {
            name: String::from("d"),
            min_version: 3,
            max_version: 4,
            tag_buffer: TaggedFields::new(),
        }])),
    };
    assert_eq!(
        encoded(all.clone()),
        vec![
            3, // three fields are present
            0, 18, 3, 0, 1, 97, 0, 1, 0, 2, 0, 0, 2, 98, 99, 0, 1, 0, 2, 0, // tag 0
            1, 8, 255, 255, 255, 255, 255, 255, 255, 249, // tag 1
            2, 9, 2, 0, 1, 100, 0, 3, 0, 4, 0, // tag 2
        ]
    );
    check_laws(all.clone());
    check_laws(ApiVersionsResponseV3TaggedFields { finalized_features_epoch: None, ..all.clone() });
    check_laws(ApiVersionsResponseV3TaggedFields { supported_features: None, ..all.clone() });
    check_laws(ApiVersionsResponseV3TaggedFields {
        supported_features: None,
        finalized_features_epoch: None,
        ..all
    });
}

#[test]
fn an_unknown_tag_is_passed_over() {
    // two entries: tag 7 with three bytes, which no field has, and tag 1
    let bytes = [2u8, 7, 3, 0xaa, 0xbb, 0xcc, 1, 8, 0, 0, 0, 0, 0, 0, 0, 5, 99];
    let mut reader: &[u8] = &bytes;
    let fields: ApiVersionsResponseV3TaggedFields = read_tagged_fields(&mut reader).unwrap();
    assert_eq!(
        fields,
        ApiVersionsResponseV3TaggedFields {
            supported_features: None,
            finalized_features_epoch: Some(5),
            finalized_features: None,
        }
    );
    assert_eq!(reader, &[99]);

    // the unknown tag may come last, may come twice, and may be empty
    let bytes = [4u8, 1, 8, 0, 0, 0, 0, 0, 0, 0, 5, 3, 1, 0xaa, 3, 0, 200, 1, 2, 0xaa, 0xbb];
    let mut reader: &[u8] = &bytes;
    let fields: ApiVersionsResponseV3TaggedFields = read_tagged_fields(&mut reader).unwrap();
    assert_eq!(fields.finalized_features_epoch, Some(5));
    assert!(reader.is_empty());

    // its payload must be there all the same
    assert_eq!(
        decoded::<ApiVersionsResponseV3TaggedFields>(&[1, 7, 3, 0xaa, 0xbb]),
        Err(CodecError::ShortRead)
    );
}

#[test]
fn a_known_tag_that_comes_twice_is_an_error() {
    let bytes = [2u8, 1, 8, 0, 0, 0, 0, 0, 0, 0, 5, 1, 8, 0, 0, 0, 0, 0, 0, 0, 6];
    assert_eq!(
        decoded::<ApiVersionsResponseV3TaggedFields>(&bytes),
        Err(CodecError::DuplicateTaggedField { tag: 1 })
    );
    // also where an unknown tag stands between the two
    let bytes = [3u8, 1, 8, 0, 0, 0, 0, 0, 0, 0, 5, 9, 0, 1, 8, 0, 0, 0, 0, 0, 0, 0, 5];
    assert_eq!(
        decoded::<ApiVersionsResponseV3TaggedFields>(&bytes),
        Err(CodecError::DuplicateTaggedField { tag: 1 })
    );
    // and whatever the second payload holds
    let bytes = [2u8, 1, 8, 0, 0, 0, 0, 0, 0, 0, 5, 1, 0];
    assert_eq!(
        decoded::<ApiVersionsResponseV3TaggedFields>(&bytes),
        Err(CodecError::DuplicateTaggedField { tag: 1 })
    );
}

#[test]
fn the_payload_of_a_known_tag_is_read_as_the_type_of_its_field() {
    // tag 1 holds eight bytes; a payload of four is cut short
    assert_eq!(
        decoded::<ApiVersionsResponseV3TaggedFields>(&[1, 1, 4, 0, 0, 0, 0]),
        Err(CodecError::ShortRead)
    );
    // a payload that is longer than its value is taken whole
    let bytes = [1u8, 1, 9, 0, 0, 0, 0, 0, 0, 0, 5, 77, 42];
    let mut reader: &[u8] = &bytes;
    let fields: ApiVersionsResponseV3TaggedFields = read_tagged_fields(&mut reader).unwrap();
    assert_eq!(fields.finalized_features_epoch, Some(5));
    assert_eq!(reader, &[42]);
    // tag 0 holds an array of features
    assert_eq!(
        decoded::<ApiVersionsResponseV3TaggedFields>(&[1, 0, 3, 2, 0, 1]),
        Err(CodecError::ShortRead)
    );
}

#[test]
fn compact_size_header_functions() {
    let mut writer: Vec<u8> = vec![1];
    write_bytes_with_unsigned_varint_size_header(&mut writer, &[9, 8, 7, 6, 5]).unwrap();
    assert_eq!(writer, vec![1, 6, 9, 8, 7, 6, 5]);
    let mut reader: &[u8] = &writer[1..];
    assert_eq!(read_bytes_with_unsigned_varint_size_header(&mut reader), Ok(vec![9, 8, 7, 6, 5]));
    assert!(reader.is_empty());
    let mut reader: &[u8] = &[0, 1];
    assert_eq!(
        read_bytes_with_unsigned_varint_size_header(&mut reader),
        Err(CodecError::ShortRead)
    );
    let mut reader: &[u8] = &[3, 1];
    assert_eq!(
        read_bytes_with_unsigned_varint_size_header(&mut reader),
        Err(CodecError::ShortRead)
    );
}

#[test]
fn float64_bit_patterns() {
    let mut writer: Vec<u8> = Vec::new();
    write_float64_bits(1.0f64.to_bits(), &mut writer);
    assert_eq!(writer, vec![0x3f, 0xf0, 0, 0, 0, 0, 0, 0]);
    write_float64_bits((-2.5f64).to_bits(), &mut writer);
    assert_eq!(&writer[8..], &[0xc0, 0x04, 0, 0, 0, 0, 0, 0]);
    let mut reader: &[u8] = &writer;
    assert_eq!(read_float64_bits(&mut reader).map(f64::from_bits), Ok(1.0));
    assert_eq!(read_float64_bits(&mut reader).map(f64::from_bits), Ok(-2.5));
    assert_eq!(read_float64_bits(&mut reader), Err(CodecError::ShortRead));
    let mut reader: &[u8] = &[0x7f, 0xf8, 0, 0, 0, 0, 0, 1];
    assert!(f64::from_bits(read_float64_bits(&mut reader).unwrap()).is_nan());
}

#[test]
fn response_headers() {
    let mut reader: &[u8] = &[0, 0, 0, 9, 1];
    assert_eq!(deserialize_response_header_and_get_correlation_id(&mut reader, 0), Ok(9));
    assert_eq!(reader, &[1]);
    let mut reader: &[u8] = &[0, 0, 0, 9, 0, 1];
    assert_eq!(deserialize_response_header_and_get_correlation_id(&mut reader, 1), Ok(9));
    assert_eq!(reader, &[1]);
    let mut reader: &[u8] = &[0, 0, 0, 9, 0, 1];
    assert_eq!(
        deserialize_response_header_and_get_correlation_id(&mut reader, 2),
        Err(CodecError::UnrecognizedDiscriminant { value: 2 })
    );
    let mut reader: &[u8] = &[0, 0, 0];
    assert_eq!(
        deserialize_response_header_and_get_correlation_id(&mut reader, 0),
        Err(CodecError::ShortRead)
    );
    assert_eq!(ResponseHeaderV0 { correlation_id: 4 }.get_correlation_id(), 4);
    assert_eq!(
        ResponseHeaderV1 { correlation_id: -4, tag_buffer: TaggedFields::new() }
            .get_correlation_id(),
        -4
    );
}

#[test]
fn a_request_and_its_response() {
    let request = ApiVersionsRequestV3 {
        client_software_name: CompactString(String::from("apache-kafka-java")),
        client_software_version: CompactString(String::from("3.3.1")),
        tag_buffer: TaggedFields::new(),
    };
    assert_eq!(ApiVersionsRequestV3::get_api_key(), ApiKey::ApiVersions);
    assert_eq!(ApiVersionsRequestV3::get_version(), 3);
    assert_eq!(ApiVersionsRequestV3::get_response_header_version(), 0);
    assert_eq!(ApiVersionsRequestV0V2::get_version(), 2);
    let sent = encode_request(request, 0, "producer-1").unwrap();
    assert_eq!(
        sent,
        vec![
            0, 0, 0, 46, 0, 18, 0, 3, 0, 0, 0, 0, 0, 10, 112, 114, 111, 100, 117, 99, 101, 114,
            45, 49, 0, 18, 97, 112, 97, 99, 104, 101, 45, 107, 97, 102, 107, 97, 45, 106, 97, 118,
            97, 6, 51, 46, 51, 46, 49, 0
        ]
    );

    // header of version 0 with the id 7, no error, no keys, no throttling, no tagged fields
    let answer = [0u8, 0, 0, 7, 0, 0, 1, 0, 0, 0, 0, 0];
    let response: ApiVersionsResponseV3 = decode_response(&answer, 0, 7).unwrap();
    assert_eq!(response.error_code, ErrorCode::NoError);
    assert!(response.api_keys.0.is_empty());
    assert_eq!(
        decode_response::<ApiVersionsResponseV3>(&answer, 0, 8),
        Err(ExchangeError::CorrelationMismatch { sent: 8, received: 7 })
    );
    assert_eq!(
        decode_response::<ApiVersionsResponseV3>(&answer[..9], 0, 7),
        Err(ExchangeError::Codec(CodecError::ShortRead))
    );
    assert_eq!(
        decode_response::<ApiVersionsResponseV3>(&answer, 5, 7),
        Err(ExchangeError::Codec(CodecError::UnrecognizedDiscriminant { value: 5 }))
    );
}

#[test]
fn the_wrappers_reach_what_they_stand_for() {
    assert_eq!(*VarI32(5), 5);
    assert_eq!(*VarI64(-5), -5);
    assert_eq!(*UnsignedVarInt32(6), 6);
    assert_eq!(CompactString(String::from("abc")).len(), 3);
    assert!(NullableString(None).is_none());
    assert_eq!(CompactBytes(vec![1, 2]).as_slice(), &[1, 2]);
    assert_eq!(Array::new(vec![1i8, 2]).len(), 2);
    assert_eq!(NullableArray::<i8>::new(None), NullableArray(None));
    assert_eq!(CompactArray::new(vec![1i8]), CompactArray(vec![1i8]));
    assert_eq!(VarArray::new(vec![1i8]), VarArray(vec![1i8]));
    assert_eq!(CompactNullableArray::new(Some(vec![1i8])), CompactNullableArray(Some(vec![1i8])));
    let mut text = CompactNullableString(None);
    *text = Some(String::from("x"));
    assert_eq!(text, CompactNullableString(Some(String::from("x"))));
    let mut bytes = CompactNullableBytes(Some(vec![1]));
    bytes.as_mut().unwrap().push(2);
    assert_eq!(bytes, CompactNullableBytes(Some(vec![1, 2])));
}

#[test]
fn a_failed_read_stops_at_the_point_of_failure() {
    // too few bytes for the number: nothing is taken
    let mut reader: &[u8] = &[1, 2, 3];
    assert_eq!(i32::from_kafka_bytes(&mut reader), Err(CodecError::ShortRead));
    assert_eq!(reader, &[1, 2, 3]);
    // a varint that is cut short or does not end: nothing is taken
    let mut reader: &[u8] = &[0x80, 0x80];
    assert_eq!(VarI32::from_kafka_bytes(&mut reader), Err(CodecError::ShortRead));
    assert_eq!(reader, &[0x80, 0x80]);
    let mut reader: &[u8] = &[0x80, 0x80, 0x80, 0x80, 0x80, 1];
    assert_eq!(UnsignedVarInt32::from_kafka_bytes(&mut reader), Err(CodecError::MalformedVarInt));
    assert_eq!(reader.len(), 6);
    // a number that stands for no key: the number is taken
    let mut reader: &[u8] = &[0, 52, 9];
    assert_eq!(
        ApiKey::from_kafka_bytes(&mut reader),
        Err(CodecError::UnrecognizedDiscriminant { value: 52 })
    );
    assert_eq!(reader, &[9]);
    // a length that the input cannot satisfy: the length is taken
    let mut reader: &[u8] = &[0, 3, 108, 111];
    assert_eq!(String::from_kafka_bytes(&mut reader), Err(CodecError::ShortRead));
    assert_eq!(reader, &[108, 111]);
    let mut reader: &[u8] = &[5, 108, 111];
    assert_eq!(CompactString::from_kafka_bytes(&mut reader), Err(CodecError::ShortRead));
    assert_eq!(reader, &[108, 111]);
    let mut reader: &[u8] = &[0, 9];
    assert_eq!(CompactBytes::from_kafka_bytes(&mut reader), Err(CodecError::ShortRead));
    assert_eq!(reader, &[9]);
    // bytes that are no text: the bytes are taken
    let mut reader: &[u8] = &[0, 2, 0xc3, 0x28, 7];
    assert_eq!(String::from_kafka_bytes(&mut reader), Err(CodecError::InvalidEncoding));
    assert_eq!(reader, &[7]);
    // an element that cannot be read: the elements before it are taken
    let mut reader: &[u8] = &[0, 0, 0, 3, 0, 1, 97, 0, 2, 98];
    assert_eq!(Array::<String>::from_kafka_bytes(&mut reader), Err(CodecError::ShortRead));
    assert_eq!(reader, &[98]);
    // a tag that comes twice: both entries are taken
    let mut reader: &[u8] = &[3, 1, 8, 0, 0, 0, 0, 0, 0, 0, 5, 1, 1, 0, 2, 0];
    assert_eq!(
        ApiVersionsResponseV3TaggedFields::from_kafka_bytes(&mut reader),
        Err(CodecError::DuplicateTaggedField { tag: 1 })
    );
    assert_eq!(reader, &[2, 0]);
    // a header of a version that is not known: nothing is taken
    let mut reader: &[u8] = &[0, 0, 0, 1];
    assert_eq!(
        deserialize_response_header_and_get_correlation_id(&mut reader, 9),
        Err(CodecError::UnrecognizedDiscriminant { value: 9 })
    );
    assert_eq!(reader.len(), 4);
}

#[test]
fn a_failed_write_keeps_what_was_written_before_the_failure() {
    let too_long = "x".repeat(40000);
    let refused = Err(CodecError::TooManyBytes(TooManyBytesError { size: 40000 }));
    // a text that is too long: nothing is written
    let mut writer: Vec<u8> = vec![7];
    assert_eq!(too_long.clone().to_kafka_bytes(&mut writer), refused);
    assert_eq!(writer, vec![7]);
    // an element that is too long: the count and the elements before it are written
    let mut writer: Vec<u8> = vec![7];
    let array = CompactArray(vec![String::from("a"), too_long.clone(), String::from("b")]);
    assert_eq!(array.to_kafka_bytes(&mut writer), refused);
    assert_eq!(writer, vec![7, 4, 0, 1, 97]);
    // a field that is too long: the fields before it are written
    let mut writer: Vec<u8> = vec![7];
    let feature = SupportedFeatureKeyV3 {
        name: too_long.clone(),
        min_version: 1,
        max_version: 2,
        tag_buffer: TaggedFields::new(),
    };
    assert_eq!((5i16, (feature, 6i16)).to_kafka_bytes(&mut writer), refused);
    assert_eq!(writer, vec![7, 0, 5]);
    // a pair behind its size: nothing is written
    let mut writer: Vec<u8> = vec![7];
    let pair = PairWithI32EncodedSize(5i16, NullableString(Some(too_long.clone())));
    assert_eq!(pair.to_kafka_bytes(&mut writer), refused);
    assert_eq!(writer, vec![7]);
    // a tagged field that cannot be written: nothing is written
    let mut writer: Vec<u8> = vec![7];
    let fields = ApiVersionsResponseV3TaggedFields {
        supported_features: None,
        finalized_features_epoch: Some(3),
        finalized_features: Some(CompactArray(vec![FinalizedFeatureKeyV3 {
            name: too_long,
            min_version: 1,
            max_version: 2,
            tag_buffer: TaggedFields::new(),
        }])),
    };
    assert_eq!(write_tagged_fields(fields, &mut writer), refused);
    assert_eq!(writer, vec![7]);
}
