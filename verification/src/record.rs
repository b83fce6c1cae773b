//! Records: fields one behind the other, in the order of their declaration.
//!
//! A record with the fields `a`, `b`, `c` is written as the nested pair `(a, (b, c))`, and a
//! record without fields as `()`. A record type describes itself by naming that pair, and
//! has its whole format, with the proofs, from the two impls below.
use vstd::prelude::*;
use crate::codec::KafkaEncodable;
use crate::err::CodecError;
use crate::seqs::{
    lemma_add_assoc, lemma_suffix_refl, lemma_suffix_trans, lemma_take_in_first,
    lemma_take_in_second,
};

verus! {

/// The record without fields: no bytes at all.
impl KafkaEncodable for () {
    type Value = ();

    open spec fn value(&self) -> () {
        ()
    }

    open spec fn encode_error(v: ()) -> Option<CodecError> {
        None
    }

    open spec fn wire(v: ()) -> Seq<u8> {
        Seq::<u8>::empty()
    }

    open spec fn parse(s: Seq<u8>) -> Result<((), Seq<u8>), CodecError> {
        Ok(((), s))
    }

    open spec fn written_before_error(v: Self::Value) -> Seq<u8> {
        Seq::<u8>::empty()
    }

    open spec fn unread_after_error(s: Seq<u8>) -> Seq<u8> {
        s
    }

    proof fn lemma_round_trip(v: (), rest: Seq<u8>) {
        assert(Seq::<u8>::empty() + rest =~= rest);
    }

    proof fn lemma_truncated(v: (), k: int) {
    }

    fn to_kafka_bytes(self, writer: &mut Vec<u8>) -> (r: Result<(), CodecError>) {
        assert(writer@ =~= old(writer)@ + Seq::<u8>::empty());
        Ok(())
    }

    fn from_kafka_bytes(reader: &mut &[u8]) -> (r: Result<(), CodecError>) {
        proof {
            lemma_suffix_refl(reader@);
        }
        Ok(())
    }
}

/// One field followed by the rest of the record.
impl<A: KafkaEncodable, B: KafkaEncodable> KafkaEncodable for (A, B) {
    type Value = (A::Value, B::Value);

    open spec fn value(&self) -> (A::Value, B::Value) {
        (self.0.value(), self.1.value())
    }

    /// The error of the first field that cannot be written.
    open spec fn encode_error(v: (A::Value, B::Value)) -> Option<CodecError> {
        match A::encode_error(v.0) {
            Some(e) => Some(e),
            None => B::encode_error(v.1),
        }
    }

    open spec fn wire(v: (A::Value, B::Value)) -> Seq<u8> {
        A::wire(v.0) + B::wire(v.1)
    }

    /// The fields are read in order, and the first failure ends the reading.
    open spec fn parse(s: Seq<u8>) -> Result<((A::Value, B::Value), Seq<u8>), CodecError> {
        match A::parse(s) {
            Ok((a, after_a)) => match B::parse(after_a) {
                Ok((b, after_b)) => Ok(((a, b), after_b)),
                Err(e) => Err(e),
            },
            Err(e) => Err(e),
        }
    }

    open spec fn written_before_error(v: Self::Value) -> Seq<u8> {
        match A::encode_error(v.0) {
            Some(_) => A::written_before_error(v.0),
            None => A::wire(v.0) + B::written_before_error(v.1),
        }
    }

    open spec fn unread_after_error(s: Seq<u8>) -> Seq<u8> {
        match A::parse(s) {
            Ok((_, after_a)) => B::unread_after_error(after_a),
            Err(_) => A::unread_after_error(s),
        }
    }

    proof fn lemma_round_trip(v: (A::Value, B::Value), rest: Seq<u8>) {
        lemma_add_assoc(A::wire(v.0), B::wire(v.1), rest);
        A::lemma_round_trip(v.0, B::wire(v.1) + rest);
        B::lemma_round_trip(v.1, rest);
    }

    proof fn lemma_truncated(v: (A::Value, B::Value), k: int) {
        let first = A::wire(v.0);
        let second = B::wire(v.1);
        if 0 <= k < first.len() {
            lemma_take_in_first(first, second, k);
            A::lemma_truncated(v.0, k);
        } else if first.len() <= k < first.len() + second.len() {
            lemma_take_in_second(first, second, k);
            A::lemma_round_trip(v.0, second.take(k - first.len()));
            B::lemma_truncated(v.1, k - first.len());
        }
    }

    fn to_kafka_bytes(self, writer: &mut Vec<u8>) -> (r: Result<(), CodecError>) {
        let ghost first = A::wire(self.0.value());
        let ghost second = B::wire(self.1.value());
        match self.0.to_kafka_bytes(writer) {
            Ok(()) => {},
            Err(e) => {
                return Err(e);
            },
        }
        match self.1.to_kafka_bytes(writer) {
            Ok(()) => {
                proof {
                    lemma_add_assoc(old(writer)@, first, second);
                }
                Ok(())
            },
            Err(e) => {
                proof {
                    lemma_add_assoc(
                        old(writer)@,
                        first,
                        B::written_before_error(self.1.value()),
                    );
                }
                Err(e)
            },
        }
    }

    fn from_kafka_bytes(reader: &mut &[u8]) -> (r: Result<(A, B), CodecError>) {
        let a = match A::from_kafka_bytes(reader) {
            Ok(a) => a,
            Err(e) => {
                return Err(e);
            },
        };
        let ghost middle = reader@;
        match B::from_kafka_bytes(reader) {
            Ok(b) => {
                proof {
                    lemma_suffix_trans(reader@, middle, old(reader)@);
                }
                Ok((a, b))
            },
            Err(e) => {
                proof {
                    lemma_suffix_trans(reader@, middle, old(reader)@);
                }
                Err(e)
            },
        }
    }
}

} // verus!
