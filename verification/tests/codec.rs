use kafka_encode::primitives::{
    Array, CompactArray, CompactBytes, CompactNullableArray, CompactNullableBytes,
    CompactNullableString, CompactString, NullableArray, NullableBytes, NullableString,
    UnsignedVarInt32, VarI32, VarI64,
};
use kafka_encode::KafkaEncodable;
use std::fmt::Debug;
use std::str::FromStr;
use uuid::Uuid;

fn check_serialize<T: KafkaEncodable>(object: T, expected_bytes: Vec<u8>) {
    let mut write_buffer: Vec<u8> = Vec::new();

    object.to_kafka_bytes(&mut write_buffer).expect("Unable to serialize object");
    assert_eq!(write_buffer, expected_bytes);
}

fn check_deserialize<T: KafkaEncodable + PartialEq + Debug>(bytes: Vec<u8>, expected_object: T) {
    let object = T::from_kafka_bytes(&mut &*bytes).expect("Unable to deserialize object");
    assert_eq!(object, expected_object);
}

// BOOLEAN
#[test]
fn test_serialize_true() {
    check_serialize(true, vec![1u8]);
}

#[test]
fn test_serialize_false() {
    check_serialize(false, vec![0u8]);
}

#[test]
fn test_deserialize_true() {
    check_deserialize::<bool>(vec![1u8], true);
}

#[test]
fn test_deserialize_false() {
    check_deserialize::<bool>(vec![0u8], false);
}

// INT8

#[test]
fn test_serialize_i8() {
    check_serialize(0i8, vec![0u8]);
    check_serialize(1i8, vec![1u8]);
    check_serialize(i8::MAX, vec![127u8]);
    check_serialize(i8::MIN, vec![128u8]);
    check_serialize(-1i8, vec![255u8]);
}

#[test]
fn test_deserialize_i8() {
    check_deserialize::<i8>(vec![0u8], 0i8);
    check_deserialize::<i8>(vec![1u8], 1i8);
    check_deserialize::<i8>(vec![127u8], i8::MAX);
    check_deserialize::<i8>(vec![128u8], i8::MIN);
    check_deserialize::<i8>(vec![255u8], -1i8);
}

// INT16
#[test]
fn test_serialize_i16() {
    check_serialize(0i16, vec![0u8, 0u8]);
    check_serialize(1i16, vec![0u8, 1u8]);
    check_serialize(i16::MAX, vec![127u8, 255u8]);
    check_serialize(i16::MIN, vec![128u8, 0u8]);
    check_serialize(-1i16, vec![255u8, 255u8]);
}

#[test]
fn test_deserialize_i16() {
    check_deserialize::<i16>(vec![0u8, 0u8], 0i16);
    check_deserialize::<i16>(vec![0u8, 1u8], 1i16);
    check_deserialize::<i16>(vec![127u8, 255u8], i16::MAX);
    check_deserialize::<i16>(vec![128u8, 0u8], i16::MIN);
    check_deserialize::<i16>(vec![255u8, 255u8], -1i16);
}

// INT32
#[test]
fn test_serialize_i32() {
    check_serialize(0i32, vec![0u8, 0u8, 0u8, 0u8]);
    check_serialize(1i32, vec![0u8, 0u8, 0u8, 1u8]);
    check_serialize(i32::MAX, vec![127u8, 255u8, 255u8, 255u8]);
    check_serialize(i32::MIN, vec![128u8, 0u8, 0u8, 0u8]);
    check_serialize(-1i32, vec![255u8, 255u8, 255u8, 255u8]);
}

#[test]
fn test_deserialize_i32() {
    check_deserialize::<i32>(vec![0u8, 0u8, 0u8, 0u8], 0i32);
    check_deserialize::<i32>(vec![0u8, 0u8, 0u8, 1u8], 1i32);
    check_deserialize::<i32>(vec![127u8, 255u8, 255u8, 255u8], i32::MAX);
    check_deserialize::<i32>(vec![128u8, 0u8, 0u8, 0u8], i32::MIN);
    check_deserialize::<i32>(vec![255u8, 255u8, 255u8, 255u8], -1i32);
}

// INT64
#[test]
fn test_serialize_i64() {
    check_serialize(0i64, vec![0u8, 0u8, 0u8, 0u8, 0u8, 0u8, 0u8, 0u8]);
    check_serialize(1i64, vec![0u8, 0u8, 0u8, 0u8, 0u8, 0u8, 0u8, 1u8]);
    check_serialize(i64::MAX, vec![127u8, 255u8, 255u8, 255u8, 255u8, 255u8, 255u8, 255u8]);
    check_serialize(i64::MIN, vec![128u8, 0u8, 0u8, 0u8, 0u8, 0u8, 0u8, 0u8]);
    check_serialize(-1i64, vec![255u8, 255u8, 255u8, 255u8, 255u8, 255u8, 255u8, 255u8]);
}

#[test]
fn test_deserialize_i64() {
    check_deserialize::<i64>(vec![0u8, 0u8, 0u8, 0u8, 0u8, 0u8, 0u8, 0u8], 0i64);
    check_deserialize::<i64>(vec![0u8, 0u8, 0u8, 0u8, 0u8, 0u8, 0u8, 1u8], 1i64);
    check_deserialize::<i64>(vec![127u8, 255u8, 255u8, 255u8, 255u8, 255u8, 255u8, 255u8], i64::MAX);
    check_deserialize::<i64>(vec![128u8, 0u8, 0u8, 0u8, 0u8, 0u8, 0u8, 0u8], i64::MIN);
    check_deserialize::<i64>(vec![255u8, 255u8, 255u8, 255u8, 255u8, 255u8, 255u8, 255u8], -1i64);
}

// UINT32
#[test]
fn test_serialize_u32() {
    check_serialize(0u32, vec![0u8, 0u8, 0u8, 0u8]);
    check_serialize(1u32, vec![0u8, 0u8, 0u8, 1u8]);
    check_serialize(u32::MAX, vec![255u8, 255u8, 255u8, 255u8]);
}

#[test]
fn test_deserialize_u32() {
    check_deserialize::<u32>(vec![0u8, 0u8, 0u8, 0u8], 0u32);
    check_deserialize::<u32>(vec![0u8, 0u8, 0u8, 1u8], 1u32);
    check_deserialize::<u32>(vec![255u8, 255u8, 255u8, 255u8], u32::MAX);
}

// VARINT
#[test]
fn test_serialize_var_i32() {
    check_serialize(VarI32(0), vec![0u8]);
    check_serialize(VarI32(-1), vec![1u8]);
    check_serialize(VarI32(1), vec![2u8]);

}

#[test]
fn test_deserialize_var_i32() {
    check_deserialize::<VarI32>(vec![0u8], VarI32(0));
    check_deserialize::<VarI32>(vec![1u8], VarI32(-1));
    check_deserialize::<VarI32>(vec![2u8], VarI32(1));
}

// VARLONG
#[test]
fn test_serialize_var_i64() {
    check_serialize(VarI64(0), vec![0u8]);
    check_serialize(VarI64(-1), vec![1u8]);
    check_serialize(VarI64(1), vec![2u8]);

}

#[test]
fn test_deserialize_var_i64() {
    check_deserialize::<VarI64>(vec![0u8], VarI64(0));
    check_deserialize::<VarI64>(vec![1u8], VarI64(-1));
    check_deserialize::<VarI64>(vec![2u8], VarI64(1));
}

// UUID
#[test]
fn test_serialize_uuid() {
    let uuid: Uuid = Uuid::from_str("67e55044-10b1-426f-9247-bb680e5fe0c8").expect("Unable to construct a UUID");
    check_serialize(uuid, vec![103, 229, 80, 68, 16, 177, 66, 111, 146, 71, 187, 104, 14, 95, 224, 200]);
}

#[test]
fn test_deserialize_uuid() {
    let uuid: Uuid = Uuid::from_str("67e55044-10b1-426f-9247-bb680e5fe0c8").expect("Unable to construct a UUID");
    check_deserialize::<Uuid>(vec![103, 229, 80, 68, 16, 177, 66, 111, 146, 71, 187, 104, 14, 95, 224, 200], uuid);
}

// STRING
#[test]
fn test_serialize_string() {
    check_serialize(String::from("lol"), vec![0, 3, 108, 111, 108]);
    check_serialize(String::from(""), vec![0, 0]);

}

#[test]
fn test_deserialize_string() {
    check_deserialize::<String>(vec![0, 3, 108, 111, 108], String::from("lol"));
    check_deserialize::<String>(vec![0, 0], String::from(""));
}

// UNSIGNED_VARINT
#[test]
fn test_serialize_var_u32() {
    check_serialize(UnsignedVarInt32(0), vec![0u8]);
    check_serialize(UnsignedVarInt32(1), vec![1u8]);
    check_serialize(UnsignedVarInt32(2), vec![2u8]);
}

#[test]
fn test_deserialize_var_u32() {
    check_deserialize::<UnsignedVarInt32>(vec![0u8], UnsignedVarInt32(0));
    check_deserialize::<UnsignedVarInt32>(vec![1u8], UnsignedVarInt32(1));
    check_deserialize::<UnsignedVarInt32>(vec![2u8], UnsignedVarInt32(2));
}

// COMPACT_STRING
#[test]
fn test_serialize_compact_string() {
    check_serialize(CompactString(String::from("lol")), vec![4, 108, 111, 108]);
    check_serialize(CompactString(String::from("")), vec![1]);
}

#[test]
fn test_deserialize_compact_string() {
    check_deserialize::<CompactString>(vec![4, 108, 111, 108], CompactString(String::from("lol")));
    check_deserialize::<CompactString>(vec![1], CompactString(String::from("")));
}

// NULLABLE_STRING
#[test]
fn test_serialize_nullable_string() {
    check_serialize(NullableString(Some(String::from("lol"))), vec![0, 3, 108, 111, 108]);
    check_serialize(NullableString(Some(String::from(""))), vec![0, 0]);
    check_serialize(NullableString(None), vec![255, 255]);
}

#[test]
fn test_deserialize_nullable_string() {
    check_deserialize::<NullableString>(vec![0, 3, 108, 111, 108], NullableString(Some(String::from("lol"))));
    check_deserialize::<NullableString>(vec![0, 0], NullableString(Some(String::from(""))));
    check_deserialize::<NullableString>(vec![255, 255], NullableString(None));
}

// COMPACT_NULLABLE_STRING
#[test]
fn test_serialize_compact_nullable_string() {
    check_serialize(CompactNullableString(Some(String::from("lol"))), vec![4, 108, 111, 108]);
    check_serialize(CompactNullableString(Some(String::from(""))), vec![1]);
    check_serialize(CompactNullableString(None), vec![0]);
}

#[test]
fn test_deserialize_compact_nullable_string() {
    check_deserialize::<CompactNullableString>(vec![4, 108, 111, 108], CompactNullableString(Some(String::from("lol"))));
    check_deserialize::<CompactNullableString>(vec![1], CompactNullableString(Some(String::from(""))));
    check_deserialize::<CompactNullableString>(vec![0], CompactNullableString(None));
}

// BYTES
#[test]
fn test_serialize_bytes() {
    check_serialize(vec![9u8, 8, 7, 6, 5], vec![0, 0, 0, 5, 9, 8, 7, 6, 5]);
    check_serialize(Vec::<u8>::new(), vec![0, 0, 0, 0]);
}

#[test]
fn test_deserialize_bytes() {
    check_deserialize::<Vec::<u8>>(vec![0, 0, 0, 5, 9, 8, 7, 6, 5], vec![9, 8, 7, 6, 5]);
    check_deserialize::<Vec::<u8>>(vec![0, 0, 0, 0], vec![]);
}

// COMPACT BYTES
#[test]
fn test_serialize_compact_bytes() {
    check_serialize(CompactBytes(vec![9, 8, 7, 6, 5]), vec![6, 9, 8, 7, 6, 5]);
    check_serialize(CompactBytes(vec![]), vec![1]);
}

#[test]
fn test_deserialize_compact_bytes() {
    check_deserialize::<CompactBytes>(vec![6, 9, 8, 7, 6, 5], CompactBytes(vec![9, 8, 7, 6, 5]));
    check_deserialize::<CompactBytes>(vec![1], CompactBytes(vec![]));
}

// NULLABLE_BYTES
#[test]
fn test_serialize_nullable_bytes() {
    check_serialize(NullableBytes(Some(vec![9, 8, 7, 6, 5])), vec![0, 0, 0, 5, 9, 8, 7, 6, 5]);
    check_serialize(NullableBytes(Some(vec![])), vec![0, 0, 0, 0]);
    check_serialize(NullableBytes(None), vec![255, 255, 255, 255]);
}

#[test]
fn test_deserialize_nullable_bytes() {
    check_deserialize::<NullableBytes>(vec![0, 0, 0, 5, 9, 8, 7, 6, 5], NullableBytes(Some(vec![9, 8, 7, 6, 5])));
    check_deserialize::<NullableBytes>(vec![0, 0, 0, 0], NullableBytes(Some(vec![])));
    check_deserialize::<NullableBytes>(vec![255, 255, 255, 255], NullableBytes(None));
}

// COMPACT_NULLABLE_BYTES
#[test]
fn test_serialize_compact_nullable_bytes() {
    check_serialize(CompactNullableBytes(Some(vec![9, 8, 7, 6, 5])), vec![6, 9, 8, 7, 6, 5]);
    check_serialize(CompactNullableBytes(Some(vec![])), vec![1]);
    check_serialize(CompactNullableBytes(None), vec![0]);
}

#[test]
fn test_deserialize_compact_nullable_bytes() {
    check_deserialize::<CompactNullableBytes>(vec![6, 9, 8, 7, 6, 5], CompactNullableBytes(Some(vec![9, 8, 7, 6, 5])));
    check_deserialize::<CompactNullableBytes>(vec![1], CompactNullableBytes(Some(vec![])));
    check_deserialize::<CompactNullableBytes>(vec![0], CompactNullableBytes(None));
}

// ARRAY
#[test]
fn test_serialize_array() {
    check_serialize(Array::<VarI32>::new(vec![VarI32(1), VarI32(42)]), vec![0, 0, 0, 2, 2, 84]);
    check_serialize(Array::<VarI32>::new(vec![]), vec![0, 0, 0, 0]);
}

#[test]
fn test_deserialize_array() {
    check_deserialize::<Array::<VarI32>>(vec![0, 0, 0, 2, 2, 84], Array::<VarI32>::new(vec![VarI32(1), VarI32(42)]));
    check_deserialize::<Array::<VarI32>>(vec![0, 0, 0, 0], Array::<VarI32>::new(vec![]));
}

// NULLABLE_ARRAY
#[test]
fn test_serialize_nullable_array() {
    check_serialize(NullableArray::<VarI32>::new(Some(vec![VarI32(1), VarI32(42)])), vec![0, 0, 0, 2, 2, 84]);
    check_serialize(NullableArray::<VarI32>::new(None), vec![255, 255, 255, 255]);
}

#[test]
fn test_deserialize_nullable_array() {
    check_deserialize::<NullableArray::<VarI32>>(vec![0, 0, 0, 2, 2, 84], NullableArray::<VarI32>::new(Some(vec![VarI32(1), VarI32(42)])));
    check_deserialize::<NullableArray::<VarI32>>(vec![255, 255, 255, 255], NullableArray::<VarI32>::new(None));
}

// COMPACT_ARRAY
#[test]
fn test_serialize_compact_array() {
    check_serialize(CompactArray::<VarI32>::new(vec![VarI32(1), VarI32(42)]), vec![3, 2, 84]);
    check_serialize(CompactArray::<VarI32>::new(vec![]), vec![1]);
}

#[test]
fn test_deserialize_compact_array() {
    check_deserialize::<CompactArray::<VarI32>>(vec![3, 2, 84], CompactArray::<VarI32>::new(vec![VarI32(1), VarI32(42)]));
    check_deserialize::<CompactArray::<VarI32>>(vec![1], CompactArray::<VarI32>::new(vec![]));
}

// COMPACT_NULLABLE_ARRAY
#[test]
fn test_serialize_compact_nullable_array() {
    check_serialize(CompactNullableArray::<VarI32>::new(Some(vec![VarI32(1), VarI32(42)])), vec![3, 2, 84]);
    check_serialize(CompactNullableArray::<VarI32>::new(None), vec![0]);
}

#[test]
fn test_deserialize_compact_nullable_array() {
    check_deserialize::<CompactNullableArray::<VarI32>>(vec![3, 2, 84], CompactNullableArray::<VarI32>::new(Some(vec![VarI32(1), VarI32(42)])));
    check_deserialize::<CompactNullableArray::<VarI32>>(vec![0], CompactNullableArray::<VarI32>::new(None));
}
