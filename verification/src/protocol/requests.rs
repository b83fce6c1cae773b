//! A pair of values behind the size of their encoding, as a request travels with its header.
use vstd::prelude::*;
use crate::arrays::count_error;
use crate::codec::KafkaEncodable;
use crate::err::{CodecError, TooManyBytesError};
use crate::fixed::write_all;
use crate::seqs::{
    lemma_add_assoc, lemma_suffix_trans, lemma_take_in_first, lemma_take_in_second,
};

verus! {

/// Two values that are written one behind the other, behind the number of bytes that the
/// two take together, as a signed 32-bit number.
///
/// Reading takes the size and then the two values as they come; it does not hold them to
/// the size.
#[derive(Debug, Clone, PartialEq, Eq)]
pub struct PairWithI32EncodedSize<T1, T2>(pub T1, pub T2);

impl<T1: KafkaEncodable, T2: KafkaEncodable> KafkaEncodable for PairWithI32EncodedSize<T1, T2> {
    type Value = (T1::Value, T2::Value);

    open spec fn value(&self) -> (T1::Value, T2::Value) {
        (self.0.value(), self.1.value())
    }

    /// The error of the first of the two that cannot be written, or else that of a size
    /// that the 32 bits cannot hold.
    open spec fn encode_error(v: (T1::Value, T2::Value)) -> Option<CodecError> {
        match <(T1, T2)>::encode_error(v) {
            Some(e) => Some(e),
            None => count_error(<(T1, T2)>::wire(v).len()),
        }
    }

    open spec fn wire(v: (T1::Value, T2::Value)) -> Seq<u8> {
        i32::wire(<(T1, T2)>::wire(v).len() as i32) + <(T1, T2)>::wire(v)
    }

    open spec fn parse(s: Seq<u8>) -> Result<((T1::Value, T2::Value), Seq<u8>), CodecError> {
        match i32::parse(s) {
            Ok((_, after)) => <(T1, T2)>::parse(after),
            Err(e) => Err(e),
        }
    }

    /// Nothing: the two are put together before any of them is written.
    open spec fn written_before_error(v: Self::Value) -> Seq<u8> {
        Seq::<u8>::empty()
    }

    open spec fn unread_after_error(s: Seq<u8>) -> Seq<u8> {
        match i32::parse(s) {
            Ok((_, after)) => <(T1, T2)>::unread_after_error(after),
            Err(_) => s,
        }
    }

    proof fn lemma_round_trip(v: (T1::Value, T2::Value), rest: Seq<u8>) {
        let body = <(T1, T2)>::wire(v);
        lemma_add_assoc(i32::wire(body.len() as i32), body, rest);
        i32::lemma_round_trip(body.len() as i32, body + rest);
        <(T1, T2)>::lemma_round_trip(v, rest);
    }

    proof fn lemma_truncated(v: (T1::Value, T2::Value), k: int) {
        let body = <(T1, T2)>::wire(v);
        let head = i32::wire(body.len() as i32);
        if 0 <= k < head.len() {
            lemma_take_in_first(head, body, k);
            i32::lemma_truncated(body.len() as i32, k);
        } else if head.len() <= k < head.len() + body.len() {
            lemma_take_in_second(head, body, k);
            i32::lemma_round_trip(body.len() as i32, body.take(k - head.len()));
            <(T1, T2)>::lemma_truncated(v, k - head.len());
        }
    }

    fn to_kafka_bytes(self, writer: &mut Vec<u8>) -> (r: Result<(), CodecError>) {
        let ghost body = <(T1, T2)>::wire(self.value());
        let mut buffer: Vec<u8> = Vec::new();
        match (self.0, self.1).to_kafka_bytes(&mut buffer) {
            Ok(()) => {},
            Err(e) => {
                return Err(e);
            },
        }
        assert(buffer@ =~= body);
        let size: usize = buffer.len();
        if size >= 0x7fff_ffff {
            return Err(CodecError::TooManyBytes(TooManyBytesError { size }));
        }
        let _ = (size as i32).to_kafka_bytes(writer);
        write_all(writer, buffer.as_slice());
        proof {
            lemma_add_assoc(old(writer)@, i32::wire(size as i32), body);
        }
        Ok(())
    }

    fn from_kafka_bytes(reader: &mut &[u8]) -> (r: Result<Self, CodecError>) {
        match i32::from_kafka_bytes(reader) {
            Ok(_) => {},
            Err(e) => {
                return Err(e);
            },
        }
        let ghost middle = reader@;
        let read = <(T1, T2)>::from_kafka_bytes(reader);
        proof {
            lemma_suffix_trans(reader@, middle, old(reader)@);
        }
        match read {
            Ok((first, second)) => Ok(PairWithI32EncodedSize(first, second)),
            Err(e) => Err(e),
        }
    }
}

} // verus!
