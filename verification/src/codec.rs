//! The trait through which every type takes part in the wire format.
use vstd::prelude::*;
use crate::err::CodecError;
use crate::seqs::is_suffix_of;

verus! {

/// Any type which implements this trait can be serialized and deserialized in a way which
/// follows Kafka's network protocol.
///
/// A type states its format twice, as mathematics: `wire` gives the bytes of a value and
/// `parse` reads a value from the front of a byte sequence, returning what is left behind it.
/// The two executable methods are held to these, and the two proof methods relate them.
pub trait KafkaEncodable: Sized {
    /// The mathematical value that an instance stands for.
    type Value;

    /// The value of this instance.
    spec fn value(&self) -> Self::Value;

    /// `None` where the value can be written; otherwise the error that writing it reports.
    spec fn encode_error(v: Self::Value) -> Option<CodecError>;

    /// The bytes that stand for `v` on the wire.
    spec fn wire(v: Self::Value) -> Seq<u8>;

    /// The value at the front of `s` together with the bytes that follow it, or the error
    /// that reading reports.
    spec fn parse(s: Seq<u8>) -> Result<(Self::Value, Seq<u8>), CodecError>;

    /// What writing `v` has written when it reports an error.
    spec fn written_before_error(v: Self::Value) -> Seq<u8>;

    /// What is left of `s`, behind the point of failure, when reading from `s` reports an
    /// error.
    spec fn unread_after_error(s: Seq<u8>) -> Seq<u8>;

    /// Reading back what was written gives the value that was written, and leaves whatever
    /// followed it.
    proof fn lemma_round_trip(v: Self::Value, rest: Seq<u8>)
        requires
            Self::encode_error(v) is None,
        ensures
            Self::parse(Self::wire(v) + rest) == Ok::<(Self::Value, Seq<u8>), CodecError>(
                (v, rest),
            ),
    ;

    /// Reading an encoding that lost one or more bytes at its end reports a short read:
    /// `k` is the number of bytes that are left.
    proof fn lemma_truncated(v: Self::Value, k: int)
        requires
            Self::encode_error(v) is None,
        ensures
            0 <= k < Self::wire(v).len() ==> Self::parse(Self::wire(v).take(k)) == Err::<
                (Self::Value, Seq<u8>),
                CodecError,
            >(CodecError::ShortRead),
    ;

    /// Appends the encoding of `self` to `writer`.
    ///
    /// On an error the writer holds what it held, followed by the part that was written
    /// before the error was found.
    fn to_kafka_bytes(self, writer: &mut Vec<u8>) -> (r: Result<(), CodecError>)
        ensures
            match Self::encode_error(self.value()) {
                None => r is Ok && final(writer)@ == old(writer)@ + Self::wire(self.value()),
                Some(e) => r == Err::<(), CodecError>(e) && final(writer)@ == old(writer)@
                    + Self::written_before_error(self.value()),
            },
    ;

    /// Reads one value from the front of `reader` and moves `reader` behind it.
    ///
    /// On an error `reader` is left at the point of failure. Either way `reader` has only
    /// moved forward.
    fn from_kafka_bytes(reader: &mut &[u8]) -> (r: Result<Self, CodecError>)
        ensures
            is_suffix_of(final(reader)@, old(reader)@),
            match Self::parse(old(reader)@) {
                Ok((v, rest)) => r matches Ok(x) && x.value() == v && final(reader)@ == rest,
                Err(e) => r matches Err(x) && x == e && final(reader)@
                    == Self::unread_after_error(old(reader)@),
            },
    ;
}

} // verus!
