//! Strings and byte buffers, each in four encodings.
use vstd::prelude::*;
use vstd::slice::slice_to_vec;
use vstd::utf8::{
    decode_utf8, encode_utf8, encode_utf8_decode_utf8, encode_utf8_valid_utf8, valid_utf8,
};
use crate::codec::KafkaEncodable;
use crate::err::CodecError;
use crate::primitives::{
    CompactBytes, CompactNullableBytes, CompactNullableString, CompactString, NullableBytes,
    NullableString,
};
use crate::sized::{
    compact_error, compact_unread, compact_wire, lemma_compact_null_round_trip,
    lemma_compact_null_truncated, lemma_compact_round_trip, lemma_compact_truncated,
    lemma_sized_null_round_trip, lemma_sized_null_truncated, lemma_sized_round_trip,
    lemma_sized_truncated, parse_compact, parse_sized, read_bytes_with_size_header,
    read_optional_bytes_with_unsigned_varint_size_header, sized_error, sized_null, sized_unread,
    sized_wire, write_bytes_with_size_header, write_bytes_with_unsigned_varint_size_header,
    write_null_size_header, write_null_unsigned_varint_size_header,
};
use crate::varint::varint_bytes;

verus! {

/// Reads what was found as text: the bytes must be valid UTF-8.
pub open spec fn as_text(found: Result<(Option<Seq<u8>>, Seq<u8>), CodecError>) -> Result<
    (Option<Seq<char>>, Seq<u8>),
    CodecError,
> {
    match found {
        Ok((Some(bytes), rest)) => if valid_utf8(bytes) {
            Ok((Some(decode_utf8(bytes)), rest))
        } else {
            Err(CodecError::InvalidEncoding)
        },
        Ok((None, rest)) => Ok((None, rest)),
        Err(e) => Err(e),
    }
}

/// Refuses null where the wire type has none: a header that stands for null leaves no
/// length to read.
pub open spec fn required<A>(found: Result<(Option<A>, Seq<u8>), CodecError>) -> Result<
    (A, Seq<u8>),
    CodecError,
> {
    match found {
        Ok((Some(x), rest)) => Ok((x, rest)),
        Ok((None, _)) => Err(CodecError::ShortRead),
        Err(e) => Err(e),
    }
}

/// `String::from_utf8` of std: the text that `bytes` encode, or nothing where they are not
/// valid UTF-8.
#[verifier::external_body]
fn string_from_utf8(bytes: Vec<u8>) -> (r: Option<String>)
    ensures
        r is Some <==> valid_utf8(bytes@),
        r matches Some(s) ==> s@ == decode_utf8(bytes@),
{
    match String::from_utf8(bytes) {
        Ok(s) => Some(s),
        Err(_) => None,
    }
}

/// The text that `bytes` encode.
pub fn text_from_bytes(bytes: &[u8]) -> (r: Result<String, CodecError>)
    ensures
        valid_utf8(bytes@) ==> (r matches Ok(s) && s@ == decode_utf8(bytes@)),
        !valid_utf8(bytes@) ==> r == Err::<String, CodecError>(CodecError::InvalidEncoding),
{
    match string_from_utf8(slice_to_vec(bytes)) {
        Some(s) => Ok(s),
        None => Err(CodecError::InvalidEncoding),
    }
}

// STRING
impl KafkaEncodable for String {
    type Value = Seq<char>;

    open spec fn value(&self) -> Seq<char> {
        self@
    }

    open spec fn encode_error(v: Seq<char>) -> Option<CodecError> {
        sized_error(encode_utf8(v).len(), 2)
    }

    open spec fn wire(v: Seq<char>) -> Seq<u8> {
        sized_wire(encode_utf8(v), 2)
    }

    open spec fn parse(s: Seq<u8>) -> Result<(Seq<char>, Seq<u8>), CodecError> {
        required(as_text(parse_sized(s, 2)))
    }

    open spec fn written_before_error(v: Self::Value) -> Seq<u8> {
        Seq::<u8>::empty()
    }

    open spec fn unread_after_error(s: Seq<u8>) -> Seq<u8> {
        match parse_sized(s, 2) {
            Ok((_, rest)) => rest,
            Err(_) => sized_unread(s, 2),
        }
    }

    proof fn lemma_round_trip(v: Seq<char>, rest: Seq<u8>) {
        encode_utf8_valid_utf8(v);
        encode_utf8_decode_utf8(v);
        lemma_sized_round_trip(encode_utf8(v), 2, rest);
    }

    proof fn lemma_truncated(v: Seq<char>, k: int) {
        lemma_sized_truncated(encode_utf8(v), 2, k);
    }

    fn to_kafka_bytes(self, writer: &mut Vec<u8>) -> (r: Result<(), CodecError>) {
        write_bytes_with_size_header(writer, self.as_str().as_bytes(), 2)
    }

    fn from_kafka_bytes(reader: &mut &[u8]) -> (r: Result<String, CodecError>) {
        match read_bytes_with_size_header(reader, 2) {
            Ok(Some(bytes)) => match text_from_bytes(bytes) {
                Ok(text) => Ok(text),
                Err(e) => Err(e),
            },
            Ok(None) => Err(CodecError::ShortRead),
            Err(e) => Err(e),
        }
    }
}

// COMPACT_STRING
impl KafkaEncodable for CompactString {
    type Value = Seq<char>;

    open spec fn value(&self) -> Seq<char> {
        self.0@
    }

    open spec fn encode_error(v: Seq<char>) -> Option<CodecError> {
        compact_error(encode_utf8(v).len())
    }

    open spec fn wire(v: Seq<char>) -> Seq<u8> {
        compact_wire(encode_utf8(v))
    }

    open spec fn parse(s: Seq<u8>) -> Result<(Seq<char>, Seq<u8>), CodecError> {
        required(as_text(parse_compact(s)))
    }

    open spec fn written_before_error(v: Self::Value) -> Seq<u8> {
        Seq::<u8>::empty()
    }

    open spec fn unread_after_error(s: Seq<u8>) -> Seq<u8> {
        match parse_compact(s) {
            Ok((_, rest)) => rest,
            Err(_) => compact_unread(s),
        }
    }

    proof fn lemma_round_trip(v: Seq<char>, rest: Seq<u8>) {
        encode_utf8_valid_utf8(v);
        encode_utf8_decode_utf8(v);
        lemma_compact_round_trip(encode_utf8(v), rest);
    }

    proof fn lemma_truncated(v: Seq<char>, k: int) {
        lemma_compact_truncated(encode_utf8(v), k);
    }

    fn to_kafka_bytes(self, writer: &mut Vec<u8>) -> (r: Result<(), CodecError>) {
        write_bytes_with_unsigned_varint_size_header(writer, self.0.as_str().as_bytes())
    }

    fn from_kafka_bytes(reader: &mut &[u8]) -> (r: Result<CompactString, CodecError>) {
        match read_optional_bytes_with_unsigned_varint_size_header(reader) {
            Ok(Some(bytes)) => match text_from_bytes(bytes) {
                Ok(text) => Ok(CompactString(text)),
                Err(e) => Err(e),
            },
            Ok(None) => Err(CodecError::ShortRead),
            Err(e) => Err(e),
        }
    }
}

// NULLABLE_STRING
impl KafkaEncodable for NullableString {
    type Value = Option<Seq<char>>;

    open spec fn value(&self) -> Option<Seq<char>> {
        match self.0 {
            Some(x) => Some(x@),
            None => None,
        }
    }

    open spec fn encode_error(v: Option<Seq<char>>) -> Option<CodecError> {
        match v {
            Some(x) => sized_error(encode_utf8(x).len(), 2),
            None => None,
        }
    }

    open spec fn wire(v: Option<Seq<char>>) -> Seq<u8> {
        match v {
            Some(x) => sized_wire(encode_utf8(x), 2),
            None => sized_null(2),
        }
    }

    open spec fn parse(s: Seq<u8>) -> Result<(Option<Seq<char>>, Seq<u8>), CodecError> {
        as_text(parse_sized(s, 2))
    }

    open spec fn written_before_error(v: Self::Value) -> Seq<u8> {
        Seq::<u8>::empty()
    }

    open spec fn unread_after_error(s: Seq<u8>) -> Seq<u8> {
        match parse_sized(s, 2) {
            Ok((_, rest)) => rest,
            Err(_) => sized_unread(s, 2),
        }
    }

    proof fn lemma_round_trip(v: Option<Seq<char>>, rest: Seq<u8>) {
        match v {
            Some(x) => {
                encode_utf8_valid_utf8(x);
                encode_utf8_decode_utf8(x);
                lemma_sized_round_trip(encode_utf8(x), 2, rest);
            },
            None => {
                lemma_sized_null_round_trip(2, rest);
            },
        }
    }

    proof fn lemma_truncated(v: Option<Seq<char>>, k: int) {
        match v {
            Some(x) => {
                lemma_sized_truncated(encode_utf8(x), 2, k);
            },
            None => {
                lemma_sized_null_truncated(2, k);
            },
        }
    }

    fn to_kafka_bytes(self, writer: &mut Vec<u8>) -> (r: Result<(), CodecError>) {
        match self.0 {
            Some(x) => write_bytes_with_size_header(writer, x.as_str().as_bytes(), 2),
            None => {
                write_null_size_header(writer, 2);
                Ok(())
            },
        }
    }

    fn from_kafka_bytes(reader: &mut &[u8]) -> (r: Result<NullableString, CodecError>) {
        match read_bytes_with_size_header(reader, 2) {
            Ok(Some(bytes)) => match text_from_bytes(bytes) {
                Ok(text) => Ok(NullableString(Some(text))),
                Err(e) => Err(e),
            },
            Ok(None) => Ok(NullableString(None)),
            Err(e) => Err(e),
        }
    }
}

// COMPACT_NULLABLE_STRING
impl KafkaEncodable for CompactNullableString {
    type Value = Option<Seq<char>>;

    open spec fn value(&self) -> Option<Seq<char>> {
        match self.0 {
            Some(x) => Some(x@),
            None => None,
        }
    }

    open spec fn encode_error(v: Option<Seq<char>>) -> Option<CodecError> {
        match v {
            Some(x) => compact_error(encode_utf8(x).len()),
            None => None,
        }
    }

    open spec fn wire(v: Option<Seq<char>>) -> Seq<u8> {
        match v {
            Some(x) => compact_wire(encode_utf8(x)),
            None => varint_bytes(0),
        }
    }

    open spec fn parse(s: Seq<u8>) -> Result<(Option<Seq<char>>, Seq<u8>), CodecError> {
        as_text(parse_compact(s))
    }

    open spec fn written_before_error(v: Self::Value) -> Seq<u8> {
        Seq::<u8>::empty()
    }

    open spec fn unread_after_error(s: Seq<u8>) -> Seq<u8> {
        match parse_compact(s) {
            Ok((_, rest)) => rest,
            Err(_) => compact_unread(s),
        }
    }

    proof fn lemma_round_trip(v: Option<Seq<char>>, rest: Seq<u8>) {
        match v {
            Some(x) => {
                encode_utf8_valid_utf8(x);
                encode_utf8_decode_utf8(x);
                lemma_compact_round_trip(encode_utf8(x), rest);
            },
            None => {
                lemma_compact_null_round_trip(rest);
            },
        }
    }

    proof fn lemma_truncated(v: Option<Seq<char>>, k: int) {
        match v {
            Some(x) => {
                lemma_compact_truncated(encode_utf8(x), k);
            },
            None => {
                lemma_compact_null_truncated(k);
            },
        }
    }

    fn to_kafka_bytes(self, writer: &mut Vec<u8>) -> (r: Result<(), CodecError>) {
        match self.0 {
            Some(x) => write_bytes_with_unsigned_varint_size_header(writer, x.as_str().as_bytes()),
            None => {
                write_null_unsigned_varint_size_header(writer);
                Ok(())
            },
        }
    }

    fn from_kafka_bytes(reader: &mut &[u8]) -> (r: Result<CompactNullableString, CodecError>) {
        match read_optional_bytes_with_unsigned_varint_size_header(reader) {
            Ok(Some(bytes)) => match text_from_bytes(bytes) {
                Ok(text) => Ok(CompactNullableString(Some(text))),
                Err(e) => Err(e),
            },
            Ok(None) => Ok(CompactNullableString(None)),
            Err(e) => Err(e),
        }
    }
}

// BYTES
impl KafkaEncodable for Vec<u8> {
    type Value = Seq<u8>;

    open spec fn value(&self) -> Seq<u8> {
        self@
    }

    open spec fn encode_error(v: Seq<u8>) -> Option<CodecError> {
        sized_error(v.len(), 4)
    }

    open spec fn wire(v: Seq<u8>) -> Seq<u8> {
        sized_wire(v, 4)
    }

    open spec fn parse(s: Seq<u8>) -> Result<(Seq<u8>, Seq<u8>), CodecError> {
        required(parse_sized(s, 4))
    }

    open spec fn written_before_error(v: Self::Value) -> Seq<u8> {
        Seq::<u8>::empty()
    }

    open spec fn unread_after_error(s: Seq<u8>) -> Seq<u8> {
        match parse_sized(s, 4) {
            Ok((_, rest)) => rest,
            Err(_) => sized_unread(s, 4),
        }
    }

    proof fn lemma_round_trip(v: Seq<u8>, rest: Seq<u8>) {
        lemma_sized_round_trip(v, 4, rest);
    }

    proof fn lemma_truncated(v: Seq<u8>, k: int) {
        lemma_sized_truncated(v, 4, k);
    }

    fn to_kafka_bytes(self, writer: &mut Vec<u8>) -> (r: Result<(), CodecError>) {
        write_bytes_with_size_header(writer, self.as_slice(), 4)
    }

    fn from_kafka_bytes(reader: &mut &[u8]) -> (r: Result<Vec<u8>, CodecError>) {
        match read_bytes_with_size_header(reader, 4) {
            Ok(Some(bytes)) => Ok(slice_to_vec(bytes)),
            Ok(None) => Err(CodecError::ShortRead),
            Err(e) => Err(e),
        }
    }
}

// COMPACT_BYTES
impl KafkaEncodable for CompactBytes {
    type Value = Seq<u8>;

    open spec fn value(&self) -> Seq<u8> {
        self.0@
    }

    open spec fn encode_error(v: Seq<u8>) -> Option<CodecError> {
        compact_error(v.len())
    }

    open spec fn wire(v: Seq<u8>) -> Seq<u8> {
        compact_wire(v)
    }

    open spec fn parse(s: Seq<u8>) -> Result<(Seq<u8>, Seq<u8>), CodecError> {
        required(parse_compact(s))
    }

    open spec fn written_before_error(v: Self::Value) -> Seq<u8> {
        Seq::<u8>::empty()
    }

    open spec fn unread_after_error(s: Seq<u8>) -> Seq<u8> {
        match parse_compact(s) {
            Ok((_, rest)) => rest,
            Err(_) => compact_unread(s),
        }
    }

    proof fn lemma_round_trip(v: Seq<u8>, rest: Seq<u8>) {
        lemma_compact_round_trip(v, rest);
    }

    proof fn lemma_truncated(v: Seq<u8>, k: int) {
        lemma_compact_truncated(v, k);
    }

    fn to_kafka_bytes(self, writer: &mut Vec<u8>) -> (r: Result<(), CodecError>) {
        write_bytes_with_unsigned_varint_size_header(writer, self.0.as_slice())
    }

    fn from_kafka_bytes(reader: &mut &[u8]) -> (r: Result<CompactBytes, CodecError>) {
        match read_optional_bytes_with_unsigned_varint_size_header(reader) {
            Ok(Some(bytes)) => Ok(CompactBytes(slice_to_vec(bytes))),
            Ok(None) => Err(CodecError::ShortRead),
            Err(e) => Err(e),
        }
    }
}

// NULLABLE_BYTES
impl KafkaEncodable for NullableBytes {
    type Value = Option<Seq<u8>>;

    open spec fn value(&self) -> Option<Seq<u8>> {
        match self.0 {
            Some(x) => Some(x@),
            None => None,
        }
    }

    open spec fn encode_error(v: Option<Seq<u8>>) -> Option<CodecError> {
        match v {
            Some(x) => sized_error(x.len(), 4),
            None => None,
        }
    }

    open spec fn wire(v: Option<Seq<u8>>) -> Seq<u8> {
        match v {
            Some(x) => sized_wire(x, 4),
            None => sized_null(4),
        }
    }

    open spec fn parse(s: Seq<u8>) -> Result<(Option<Seq<u8>>, Seq<u8>), CodecError> {
        parse_sized(s, 4)
    }

    open spec fn written_before_error(v: Self::Value) -> Seq<u8> {
        Seq::<u8>::empty()
    }

    open spec fn unread_after_error(s: Seq<u8>) -> Seq<u8> {
        match parse_sized(s, 4) {
            Ok((_, rest)) => rest,
            Err(_) => sized_unread(s, 4),
        }
    }

    proof fn lemma_round_trip(v: Option<Seq<u8>>, rest: Seq<u8>) {
        match v {
            Some(x) => {
                lemma_sized_round_trip(x, 4, rest);
            },
            None => {
                lemma_sized_null_round_trip(4, rest);
            },
        }
    }

    proof fn lemma_truncated(v: Option<Seq<u8>>, k: int) {
        match v {
            Some(x) => {
                lemma_sized_truncated(x, 4, k);
            },
            None => {
                lemma_sized_null_truncated(4, k);
            },
        }
    }

    fn to_kafka_bytes(self, writer: &mut Vec<u8>) -> (r: Result<(), CodecError>) {
        match self.0 {
            Some(x) => write_bytes_with_size_header(writer, x.as_slice(), 4),
            None => {
                write_null_size_header(writer, 4);
                Ok(())
            },
        }
    }

    fn from_kafka_bytes(reader: &mut &[u8]) -> (r: Result<NullableBytes, CodecError>) {
        match read_bytes_with_size_header(reader, 4) {
            Ok(Some(bytes)) => Ok(NullableBytes(Some(slice_to_vec(bytes)))),
            Ok(None) => Ok(NullableBytes(None)),
            Err(e) => Err(e),
        }
    }
}

// COMPACT_NULLABLE_BYTES
impl KafkaEncodable for CompactNullableBytes {
    type Value = Option<Seq<u8>>;

    open spec fn value(&self) -> Option<Seq<u8>> {
        match self.0 {
            Some(x) => Some(x@),
            None => None,
        }
    }

    open spec fn encode_error(v: Option<Seq<u8>>) -> Option<CodecError> {
        match v {
            Some(x) => compact_error(x.len()),
            None => None,
        }
    }

    open spec fn wire(v: Option<Seq<u8>>) -> Seq<u8> {
        match v {
            Some(x) => compact_wire(x),
            None => varint_bytes(0),
        }
    }

    open spec fn parse(s: Seq<u8>) -> Result<(Option<Seq<u8>>, Seq<u8>), CodecError> {
        parse_compact(s)
    }

    open spec fn written_before_error(v: Self::Value) -> Seq<u8> {
        Seq::<u8>::empty()
    }

    open spec fn unread_after_error(s: Seq<u8>) -> Seq<u8> {
        match parse_compact(s) {
            Ok((_, rest)) => rest,
            Err(_) => compact_unread(s),
        }
    }

    proof fn lemma_round_trip(v: Option<Seq<u8>>, rest: Seq<u8>) {
        match v {
            Some(x) => {
                lemma_compact_round_trip(x, rest);
            },
            None => {
                lemma_compact_null_round_trip(rest);
            },
        }
    }

    proof fn lemma_truncated(v: Option<Seq<u8>>, k: int) {
        match v {
            Some(x) => {
                lemma_compact_truncated(x, k);
            },
            None => {
                lemma_compact_null_truncated(k);
            },
        }
    }

    fn to_kafka_bytes(self, writer: &mut Vec<u8>) -> (r: Result<(), CodecError>) {
        match self.0 {
            Some(x) => write_bytes_with_unsigned_varint_size_header(writer, x.as_slice()),
            None => {
                write_null_unsigned_varint_size_header(writer);
                Ok(())
            },
        }
    }

    fn from_kafka_bytes(reader: &mut &[u8]) -> (r: Result<CompactNullableBytes, CodecError>) {
        match read_optional_bytes_with_unsigned_varint_size_header(reader) {
            Ok(Some(bytes)) => Ok(CompactNullableBytes(Some(slice_to_vec(bytes)))),
            Ok(None) => Ok(CompactNullableBytes(None)),
            Err(e) => Err(e),
        }
    }
}

} // verus!
