//! UUIDs: sixteen bytes, as they are.
use vstd::prelude::*;
use uuid::Uuid;
use crate::codec::KafkaEncodable;
use crate::err::CodecError;
use crate::fixed::{
    be_bytes, lemma_be_bytes_len, lemma_parse_be_round_trip, lemma_parse_be_truncated,
    lemma_pow256_values, parse_be, read_fixed, write_be,
};
use crate::seqs::{lemma_suffix_refl, lemma_suffix_skip};

verus! {

/// `uuid::Uuid`, which is carried through as it is: what is known of one is what the two
/// functions below say of its number.
#[verifier::external_type_specification]
#[verifier::external_body]
pub struct ExUuid(Uuid);

/// The sixteen bytes of a UUID as one number, the first byte the most significant.
pub uninterp spec fn uuid_number(id: Uuid) -> u128;

/// `Uuid::as_u128` of uuid: the bytes of the UUID packed into a number, the first byte the
/// most significant.
#[verifier::external_body]
fn uuid_as_u128(id: &Uuid) -> (n: u128)
    ensures
        n == uuid_number(*id),
{
    id.as_u128()
}

/// `Uuid::from_u128` of uuid: the UUID whose bytes, packed into a number, are `n`.
#[verifier::external_body]
fn uuid_from_u128(n: u128) -> (id: Uuid)
    ensures
        uuid_number(id) == n,
{
    Uuid::from_u128(n)
}

// UUID
impl KafkaEncodable for Uuid {
    type Value = u128;

    open spec fn value(&self) -> u128 {
        uuid_number(*self)
    }

    open spec fn encode_error(v: u128) -> Option<CodecError> {
        None
    }

    open spec fn wire(v: u128) -> Seq<u8> {
        be_bytes(v as nat, 16)
    }

    open spec fn parse(s: Seq<u8>) -> Result<(u128, Seq<u8>), CodecError> {
        match parse_be(s, 16) {
            Ok((x, rest)) => Ok((x as u128, rest)),
            Err(e) => Err(e),
        }
    }

    open spec fn written_before_error(v: Self::Value) -> Seq<u8> {
        Seq::<u8>::empty()
    }

    open spec fn unread_after_error(s: Seq<u8>) -> Seq<u8> {
        s
    }

    proof fn lemma_round_trip(v: u128, rest: Seq<u8>) {
        lemma_pow256_values();
        lemma_parse_be_round_trip(v as nat, 16, rest);
    }

    proof fn lemma_truncated(v: u128, k: int) {
        lemma_be_bytes_len(v as nat, 16);
        lemma_parse_be_truncated(v as nat, 16, k);
    }

    fn to_kafka_bytes(self, writer: &mut Vec<u8>) -> (r: Result<(), CodecError>) {
        proof {
            lemma_pow256_values();
        }
        write_be(writer, uuid_as_u128(&self), 16);
        Ok(())
    }

    fn from_kafka_bytes(reader: &mut &[u8]) -> (r: Result<Uuid, CodecError>) {
        proof {
            lemma_suffix_refl(reader@);
            lemma_pow256_values();
        }
        match read_fixed(reader, 16) {
            Ok(x) => {
                proof {
                    lemma_suffix_skip(old(reader)@, 16);
                }
                Ok(uuid_from_u128(x))
            },
            Err(e) => Err(e),
        }
    }
}

} // verus!
