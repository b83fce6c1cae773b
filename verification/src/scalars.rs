//! Booleans and the integers of fixed width.
use vstd::prelude::*;
use crate::codec::KafkaEncodable;
use crate::err::CodecError;
use crate::fixed::{
    be_bytes, lemma_be_bytes_len, lemma_parse_be_round_trip, lemma_parse_be_truncated,
    lemma_pow256_values, lemma_signed_round_trip, parse_be, read_fixed, signed_of, unsigned_of,
    write_be,
};
use crate::seqs::{lemma_suffix_refl, lemma_suffix_skip};

verus! {

/// The byte that stands for a boolean: 1 for true, 0 for false.
pub open spec fn bool_byte(b: bool) -> u8 {
    if b {
        1
    } else {
        0
    }
}

// BOOLEAN
impl KafkaEncodable for bool {
    type Value = bool;

    open spec fn value(&self) -> bool {
        *self
    }

    open spec fn encode_error(v: bool) -> Option<CodecError> {
        None
    }

    open spec fn wire(v: bool) -> Seq<u8> {
        seq![bool_byte(v)]
    }

    /// Zero is false and every other byte is true.
    open spec fn parse(s: Seq<u8>) -> Result<(bool, Seq<u8>), CodecError> {
        if s.len() < 1 {
            Err(CodecError::ShortRead)
        } else {
            Ok((s[0] != 0, s.skip(1)))
        }
    }

    open spec fn written_before_error(v: Self::Value) -> Seq<u8> {
        Seq::<u8>::empty()
    }

    open spec fn unread_after_error(s: Seq<u8>) -> Seq<u8> {
        s
    }

    proof fn lemma_round_trip(v: bool, rest: Seq<u8>) {
        assert((Self::wire(v) + rest).skip(1) =~= rest);
    }

    proof fn lemma_truncated(v: bool, k: int) {
    }

    fn to_kafka_bytes(self, writer: &mut Vec<u8>) -> (r: Result<(), CodecError>) {
        let byte: u8 = if self {
            1
        } else {
            0
        };
        writer.push(byte);
        assert(writer@ =~= old(writer)@ + Self::wire(self));
        Ok(())
    }

    fn from_kafka_bytes(reader: &mut &[u8]) -> (r: Result<bool, CodecError>) {
        proof {
            lemma_suffix_refl(reader@);
            lemma_pow256_values();
        }
        match read_fixed(reader, 1) {
            Ok(x) => {
                proof {
                    lemma_suffix_skip(old(reader)@, 1);
                    assert(old(reader)@.take(1).drop_last() =~= Seq::<u8>::empty());
                    reveal_with_fuel(crate::fixed::be_value, 2);
                }
                Ok(x != 0)
            },
            Err(e) => Err(e),
        }
    }
}

// UINT8
impl KafkaEncodable for u8 {
    type Value = u8;

    open spec fn value(&self) -> u8 {
        *self
    }

    open spec fn encode_error(v: u8) -> Option<CodecError> {
        None
    }

    open spec fn wire(v: u8) -> Seq<u8> {
        be_bytes(v as nat, 1)
    }

    open spec fn parse(s: Seq<u8>) -> Result<(u8, Seq<u8>), CodecError> {
        match parse_be(s, 1) {
            Ok((x, rest)) => Ok((x as u8, rest)),
            Err(e) => Err(e),
        }
    }

    open spec fn written_before_error(v: Self::Value) -> Seq<u8> {
        Seq::<u8>::empty()
    }

    open spec fn unread_after_error(s: Seq<u8>) -> Seq<u8> {
        s
    }

    proof fn lemma_round_trip(v: u8, rest: Seq<u8>) {
        lemma_pow256_values();
        lemma_parse_be_round_trip(v as nat, 1, rest);
    }

    proof fn lemma_truncated(v: u8, k: int) {
        lemma_be_bytes_len(v as nat, 1);
        lemma_parse_be_truncated(v as nat, 1, k);
    }

    fn to_kafka_bytes(self, writer: &mut Vec<u8>) -> (r: Result<(), CodecError>) {
        proof {
            lemma_pow256_values();
        }
        write_be(writer, self as u128, 1);
        Ok(())
    }

    fn from_kafka_bytes(reader: &mut &[u8]) -> (r: Result<u8, CodecError>) {
        proof {
            lemma_suffix_refl(reader@);
            lemma_pow256_values();
        }
        match read_fixed(reader, 1) {
            Ok(x) => {
                proof {
                    lemma_suffix_skip(old(reader)@, 1);
                }
                Ok(x as u8)
            },
            Err(e) => Err(e),
        }
    }
}

// UINT32
impl KafkaEncodable for u32 {
    type Value = u32;

    open spec fn value(&self) -> u32 {
        *self
    }

    open spec fn encode_error(v: u32) -> Option<CodecError> {
        None
    }

    open spec fn wire(v: u32) -> Seq<u8> {
        be_bytes(v as nat, 4)
    }

    open spec fn parse(s: Seq<u8>) -> Result<(u32, Seq<u8>), CodecError> {
        match parse_be(s, 4) {
            Ok((x, rest)) => Ok((x as u32, rest)),
            Err(e) => Err(e),
        }
    }

    open spec fn written_before_error(v: Self::Value) -> Seq<u8> {
        Seq::<u8>::empty()
    }

    open spec fn unread_after_error(s: Seq<u8>) -> Seq<u8> {
        s
    }

    proof fn lemma_round_trip(v: u32, rest: Seq<u8>) {
        lemma_pow256_values();
        lemma_parse_be_round_trip(v as nat, 4, rest);
    }

    proof fn lemma_truncated(v: u32, k: int) {
        lemma_be_bytes_len(v as nat, 4);
        lemma_parse_be_truncated(v as nat, 4, k);
    }

    fn to_kafka_bytes(self, writer: &mut Vec<u8>) -> (r: Result<(), CodecError>) {
        proof {
            lemma_pow256_values();
        }
        write_be(writer, self as u128, 4);
        Ok(())
    }

    fn from_kafka_bytes(reader: &mut &[u8]) -> (r: Result<u32, CodecError>) {
        proof {
            lemma_suffix_refl(reader@);
            lemma_pow256_values();
        }
        match read_fixed(reader, 4) {
            Ok(x) => {
                proof {
                    lemma_suffix_skip(old(reader)@, 4);
                }
                Ok(x as u32)
            },
            Err(e) => Err(e),
        }
    }
}

// INT8
impl KafkaEncodable for i8 {
    type Value = i8;

    open spec fn value(&self) -> i8 {
        *self
    }

    open spec fn encode_error(v: i8) -> Option<CodecError> {
        None
    }

    /// Two's complement, most significant byte first.
    open spec fn wire(v: i8) -> Seq<u8> {
        be_bytes(unsigned_of(v as int, 1), 1)
    }

    open spec fn parse(s: Seq<u8>) -> Result<(i8, Seq<u8>), CodecError> {
        match parse_be(s, 1) {
            Ok((x, rest)) => Ok((signed_of(x, 1) as i8, rest)),
            Err(e) => Err(e),
        }
    }

    open spec fn written_before_error(v: Self::Value) -> Seq<u8> {
        Seq::<u8>::empty()
    }

    open spec fn unread_after_error(s: Seq<u8>) -> Seq<u8> {
        s
    }

    proof fn lemma_round_trip(v: i8, rest: Seq<u8>) {
        lemma_pow256_values();
        lemma_signed_round_trip(v as int, 1);
        lemma_parse_be_round_trip(unsigned_of(v as int, 1), 1, rest);
    }

    proof fn lemma_truncated(v: i8, k: int) {
        lemma_be_bytes_len(unsigned_of(v as int, 1), 1);
        lemma_parse_be_truncated(unsigned_of(v as int, 1), 1, k);
    }

    fn to_kafka_bytes(self, writer: &mut Vec<u8>) -> (r: Result<(), CodecError>) {
        proof {
            lemma_pow256_values();
        }
        let pattern: u128 = if self >= 0 {
            self as u128
        } else {
            (self as i128 + 0x100) as u128
        };
        write_be(writer, pattern, 1);
        Ok(())
    }

    fn from_kafka_bytes(reader: &mut &[u8]) -> (r: Result<i8, CodecError>) {
        proof {
            lemma_suffix_refl(reader@);
            lemma_pow256_values();
        }
        match read_fixed(reader, 1) {
            Ok(x) => {
                proof {
                    lemma_suffix_skip(old(reader)@, 1);
                }
                if x < 0x80 {
                    Ok(x as i8)
                } else {
                    Ok((x as i128 - 0x100) as i8)
                }
            },
            Err(e) => Err(e),
        }
    }
}

// INT16
impl KafkaEncodable for i16 {
    type Value = i16;

    open spec fn value(&self) -> i16 {
        *self
    }

    open spec fn encode_error(v: i16) -> Option<CodecError> {
        None
    }

    /// Two's complement, most significant byte first.
    open spec fn wire(v: i16) -> Seq<u8> {
        be_bytes(unsigned_of(v as int, 2), 2)
    }

    open spec fn parse(s: Seq<u8>) -> Result<(i16, Seq<u8>), CodecError> {
        match parse_be(s, 2) {
            Ok((x, rest)) => Ok((signed_of(x, 2) as i16, rest)),
            Err(e) => Err(e),
        }
    }

    open spec fn written_before_error(v: Self::Value) -> Seq<u8> {
        Seq::<u8>::empty()
    }

    open spec fn unread_after_error(s: Seq<u8>) -> Seq<u8> {
        s
    }

    proof fn lemma_round_trip(v: i16, rest: Seq<u8>) {
        lemma_pow256_values();
        lemma_signed_round_trip(v as int, 2);
        lemma_parse_be_round_trip(unsigned_of(v as int, 2), 2, rest);
    }

    proof fn lemma_truncated(v: i16, k: int) {
        lemma_be_bytes_len(unsigned_of(v as int, 2), 2);
        lemma_parse_be_truncated(unsigned_of(v as int, 2), 2, k);
    }

    fn to_kafka_bytes(self, writer: &mut Vec<u8>) -> (r: Result<(), CodecError>) {
        proof {
            lemma_pow256_values();
        }
        let pattern: u128 = if self >= 0 {
            self as u128
        } else {
            (self as i128 + 0x1_0000) as u128
        };
        write_be(writer, pattern, 2);
        Ok(())
    }

    fn from_kafka_bytes(reader: &mut &[u8]) -> (r: Result<i16, CodecError>) {
        proof {
            lemma_suffix_refl(reader@);
            lemma_pow256_values();
        }
        match read_fixed(reader, 2) {
            Ok(x) => {
                proof {
                    lemma_suffix_skip(old(reader)@, 2);
                }
                if x < 0x8000 {
                    Ok(x as i16)
                } else {
                    Ok((x as i128 - 0x1_0000) as i16)
                }
            },
            Err(e) => Err(e),
        }
    }
}

// INT32
impl KafkaEncodable for i32 {
    type Value = i32;

    open spec fn value(&self) -> i32 {
        *self
    }

    open spec fn encode_error(v: i32) -> Option<CodecError> {
        None
    }

    /// Two's complement, most significant byte first.
    open spec fn wire(v: i32) -> Seq<u8> {
        be_bytes(unsigned_of(v as int, 4), 4)
    }

    open spec fn parse(s: Seq<u8>) -> Result<(i32, Seq<u8>), CodecError> {
        match parse_be(s, 4) {
            Ok((x, rest)) => Ok((signed_of(x, 4) as i32, rest)),
            Err(e) => Err(e),
        }
    }

    open spec fn written_before_error(v: Self::Value) -> Seq<u8> {
        Seq::<u8>::empty()
    }

    open spec fn unread_after_error(s: Seq<u8>) -> Seq<u8> {
        s
    }

    proof fn lemma_round_trip(v: i32, rest: Seq<u8>) {
        lemma_pow256_values();
        lemma_signed_round_trip(v as int, 4);
        lemma_parse_be_round_trip(unsigned_of(v as int, 4), 4, rest);
    }

    proof fn lemma_truncated(v: i32, k: int) {
        lemma_be_bytes_len(unsigned_of(v as int, 4), 4);
        lemma_parse_be_truncated(unsigned_of(v as int, 4), 4, k);
    }

    fn to_kafka_bytes(self, writer: &mut Vec<u8>) -> (r: Result<(), CodecError>) {
        proof {
            lemma_pow256_values();
        }
        let pattern: u128 = if self >= 0 {
            self as u128
        } else {
            (self as i128 + 0x1_0000_0000) as u128
        };
        write_be(writer, pattern, 4);
        Ok(())
    }

    fn from_kafka_bytes(reader: &mut &[u8]) -> (r: Result<i32, CodecError>) {
        proof {
            lemma_suffix_refl(reader@);
            lemma_pow256_values();
        }
        match read_fixed(reader, 4) {
            Ok(x) => {
                proof {
                    lemma_suffix_skip(old(reader)@, 4);
                }
                if x < 0x8000_0000 {
                    Ok(x as i32)
                } else {
                    Ok((x as i128 - 0x1_0000_0000) as i32)
                }
            },
            Err(e) => Err(e),
        }
    }
}

// INT64
impl KafkaEncodable for i64 {
    type Value = i64;

    open spec fn value(&self) -> i64 {
        *self
    }

    open spec fn encode_error(v: i64) -> Option<CodecError> {
        None
    }

    /// Two's complement, most significant byte first.
    open spec fn wire(v: i64) -> Seq<u8> {
        be_bytes(unsigned_of(v as int, 8), 8)
    }

    open spec fn parse(s: Seq<u8>) -> Result<(i64, Seq<u8>), CodecError> {
        match parse_be(s, 8) {
            Ok((x, rest)) => Ok((signed_of(x, 8) as i64, rest)),
            Err(e) => Err(e),
        }
    }

    open spec fn written_before_error(v: Self::Value) -> Seq<u8> {
        Seq::<u8>::empty()
    }

    open spec fn unread_after_error(s: Seq<u8>) -> Seq<u8> {
        s
    }

    proof fn lemma_round_trip(v: i64, rest: Seq<u8>) {
        lemma_pow256_values();
        lemma_signed_round_trip(v as int, 8);
        lemma_parse_be_round_trip(unsigned_of(v as int, 8), 8, rest);
    }

    proof fn lemma_truncated(v: i64, k: int) {
        lemma_be_bytes_len(unsigned_of(v as int, 8), 8);
        lemma_parse_be_truncated(unsigned_of(v as int, 8), 8, k);
    }

    fn to_kafka_bytes(self, writer: &mut Vec<u8>) -> (r: Result<(), CodecError>) {
        proof {
            lemma_pow256_values();
        }
        let pattern: u128 = if self >= 0 {
            self as u128
        } else {
            (self as i128 + 0x1_0000_0000_0000_0000) as u128
        };
        write_be(writer, pattern, 8);
        Ok(())
    }

    fn from_kafka_bytes(reader: &mut &[u8]) -> (r: Result<i64, CodecError>) {
        proof {
            lemma_suffix_refl(reader@);
            lemma_pow256_values();
        }
        match read_fixed(reader, 8) {
            Ok(x) => {
                proof {
                    lemma_suffix_skip(old(reader)@, 8);
                }
                if x < 0x8000_0000_0000_0000 {
                    Ok(x as i64)
                } else {
                    Ok((x as i128 - 0x1_0000_0000_0000_0000) as i64)
                }
            },
            Err(e) => Err(e),
        }
    }
}

// FLOAT64
/// Appends the 64 bits of an IEEE-754 number of double precision, most significant byte
/// first. The caller gives the number as its bit pattern.
pub fn write_float64_bits(bits: u64, writer: &mut Vec<u8>)
    ensures
        final(writer)@ == old(writer)@ + be_bytes(bits as nat, 8),
{
    proof {
        lemma_pow256_values();
    }
    write_be(writer, bits as u128, 8);
}

/// Reads the 64 bits of an IEEE-754 number of double precision, most significant byte
/// first, and gives the number as its bit pattern. Every pattern is accepted.
pub fn read_float64_bits(reader: &mut &[u8]) -> (r: Result<u64, CodecError>)
    ensures
        match parse_be(old(reader)@, 8) {
            Ok((x, rest)) => r == Ok::<u64, CodecError>(x as u64) && x <= u64::MAX
                && final(reader)@ == rest,
            Err(e) => r == Err::<u64, CodecError>(e) && final(reader)@ == old(reader)@,
        },
{
    proof {
        lemma_pow256_values();
    }
    match read_fixed(reader, 8) {
        Ok(x) => Ok(x as u64),
        Err(e) => Err(e),
    }
}

} // verus!
