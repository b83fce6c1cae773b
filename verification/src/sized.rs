//! Byte runs behind a length header: a signed big-endian length, where -1 stands for null,
//! or an unsigned varint that holds the length plus one, where 0 stands for null.
use vstd::prelude::*;
use vstd::slice::slice_to_vec;
use crate::codec::KafkaEncodable;
use crate::err::{too_many, CodecError, TooManyBytesError};
use crate::fixed::{
    be_bytes, lemma_be_bytes_len, lemma_parse_be_round_trip, lemma_parse_be_truncated,
    lemma_pow256_values, parse_be, pow256, read_fixed, signed_of, take_bytes, write_all,
    write_be,
};
use crate::primitives::UnsignedVarInt32;
use crate::seqs::{
    is_suffix_of, lemma_add_assoc, lemma_skip_added, lemma_suffix_refl, lemma_suffix_skip,
    lemma_suffix_trans, lemma_take_in_first, lemma_take_in_second,
};
use crate::varint::varint_bytes;

verus! {

/// The first length that a signed header of `width` bytes does not take: its greatest value.
pub open spec fn sized_limit(width: nat) -> nat {
    (pow256(width) / 2 - 1) as nat
}

/// The error for a run of `len` bytes that a signed header of `width` bytes cannot count.
pub open spec fn sized_error(len: nat, width: nat) -> Option<CodecError> {
    if len >= sized_limit(width) {
        Some(too_many(len))
    } else {
        None
    }
}

/// `payload` behind its length in `width` bytes.
pub open spec fn sized_wire(payload: Seq<u8>, width: nat) -> Seq<u8> {
    be_bytes(payload.len(), width) + payload
}

/// The header that stands for null: -1 in `width` bytes.
pub open spec fn sized_null(width: nat) -> Seq<u8> {
    be_bytes((pow256(width) - 1) as nat, width)
}

/// Reads a signed length of `width` bytes and that many bytes behind it. A length of -1
/// gives `None`; any other negative length can never be satisfied.
pub open spec fn parse_sized(s: Seq<u8>, width: nat) -> Result<
    (Option<Seq<u8>>, Seq<u8>),
    CodecError,
> {
    match parse_be(s, width) {
        Ok((u, rest)) => {
            let n = signed_of(u, width);
            if n == -1 {
                Ok((None, rest))
            } else if n < 0 || rest.len() < n {
                Err(CodecError::ShortRead)
            } else {
                Ok((Some(rest.take(n)), rest.skip(n)))
            }
        },
        Err(e) => Err(e),
    }
}

/// What is left of `s` where reading a run behind a signed length of `width` bytes fails:
/// all of it where the length itself is cut short, and otherwise what follows the length.
pub open spec fn sized_unread(s: Seq<u8>, width: nat) -> Seq<u8> {
    match parse_be(s, width) {
        Ok((_, rest)) => rest,
        Err(_) => s,
    }
}

/// The error for a run of `len` bytes or elements whose number plus one a 32-bit unsigned
/// header cannot hold.
pub open spec fn compact_error(len: nat) -> Option<CodecError> {
    if len >= 0xffff_ffff {
        Some(too_many(len))
    } else {
        None
    }
}

/// `payload` behind an unsigned varint that holds its length plus one.
pub open spec fn compact_wire(payload: Seq<u8>) -> Seq<u8> {
    varint_bytes(payload.len() + 1) + payload
}

/// Reads an unsigned varint and one byte less than it says. A header of 0 gives `None`.
pub open spec fn parse_compact(s: Seq<u8>) -> Result<(Option<Seq<u8>>, Seq<u8>), CodecError> {
    match UnsignedVarInt32::parse(s) {
        Ok((h, rest)) => {
            if h == 0 {
                Ok((None, rest))
            } else if rest.len() < h - 1 {
                Err(CodecError::ShortRead)
            } else {
                Ok((Some(rest.take(h - 1)), rest.skip(h - 1)))
            }
        },
        Err(e) => Err(e),
    }
}

/// What is left of `s` where reading a run behind a compact header fails: all of it where
/// the header itself fails, and otherwise what follows the header.
pub open spec fn compact_unread(s: Seq<u8>) -> Seq<u8> {
    match UnsignedVarInt32::parse(s) {
        Ok((_, rest)) => rest,
        Err(_) => s,
    }
}

pub proof fn lemma_sized_round_trip(payload: Seq<u8>, width: nat, rest: Seq<u8>)
    requires
        width == 2 || width == 4,
        sized_error(payload.len(), width) is None,
    ensures
        parse_sized(sized_wire(payload, width) + rest, width) == Ok::<
            (Option<Seq<u8>>, Seq<u8>),
            CodecError,
        >((Some(payload), rest)),
{
    lemma_pow256_values();
    lemma_add_assoc(be_bytes(payload.len(), width), payload, rest);
    lemma_parse_be_round_trip(payload.len(), width, payload + rest);
    lemma_skip_added(payload, rest);
}

pub proof fn lemma_sized_null_round_trip(width: nat, rest: Seq<u8>)
    requires
        width == 2 || width == 4,
    ensures
        parse_sized(sized_null(width) + rest, width) == Ok::<
            (Option<Seq<u8>>, Seq<u8>),
            CodecError,
        >((None, rest)),
{
    lemma_pow256_values();
    lemma_parse_be_round_trip((pow256(width) - 1) as nat, width, rest);
}

pub proof fn lemma_sized_truncated(payload: Seq<u8>, width: nat, k: int)
    requires
        width == 2 || width == 4,
        sized_error(payload.len(), width) is None,
    ensures
        0 <= k < sized_wire(payload, width).len() ==> parse_sized(
            sized_wire(payload, width).take(k),
            width,
        ) == Err::<(Option<Seq<u8>>, Seq<u8>), CodecError>(CodecError::ShortRead),
{
    lemma_pow256_values();
    let header = be_bytes(payload.len(), width);
    lemma_be_bytes_len(payload.len(), width);
    if 0 <= k < width {
        lemma_take_in_first(header, payload, k);
        lemma_parse_be_truncated(payload.len(), width, k);
    } else if width <= k < sized_wire(payload, width).len() {
        lemma_take_in_second(header, payload, k);
        lemma_parse_be_round_trip(payload.len(), width, payload.take(k - width));
    }
}

pub proof fn lemma_sized_null_truncated(width: nat, k: int)
    requires
        width == 2 || width == 4,
    ensures
        0 <= k < sized_null(width).len() ==> parse_sized(sized_null(width).take(k), width)
            == Err::<(Option<Seq<u8>>, Seq<u8>), CodecError>(CodecError::ShortRead),
{
    lemma_be_bytes_len((pow256(width) - 1) as nat, width);
    lemma_parse_be_truncated((pow256(width) - 1) as nat, width, k);
}

pub proof fn lemma_compact_round_trip(payload: Seq<u8>, rest: Seq<u8>)
    requires
        compact_error(payload.len()) is None,
    ensures
        parse_compact(compact_wire(payload) + rest) == Ok::<
            (Option<Seq<u8>>, Seq<u8>),
            CodecError,
        >((Some(payload), rest)),
{
    let header = (payload.len() + 1) as u32;
    lemma_add_assoc(varint_bytes(payload.len() + 1), payload, rest);
    UnsignedVarInt32::lemma_round_trip(header, payload + rest);
    lemma_skip_added(payload, rest);
}

pub proof fn lemma_compact_null_round_trip(rest: Seq<u8>)
    ensures
        parse_compact(varint_bytes(0) + rest) == Ok::<(Option<Seq<u8>>, Seq<u8>), CodecError>(
            (None, rest),
        ),
{
    UnsignedVarInt32::lemma_round_trip(0, rest);
}

pub proof fn lemma_compact_truncated(payload: Seq<u8>, k: int)
    requires
        compact_error(payload.len()) is None,
    ensures
        0 <= k < compact_wire(payload).len() ==> parse_compact(compact_wire(payload).take(k))
            == Err::<(Option<Seq<u8>>, Seq<u8>), CodecError>(CodecError::ShortRead),
{
    let header = (payload.len() + 1) as u32;
    let head = varint_bytes(payload.len() + 1);
    if 0 <= k < head.len() {
        lemma_take_in_first(head, payload, k);
        UnsignedVarInt32::lemma_truncated(header, k);
    } else if head.len() <= k < compact_wire(payload).len() {
        lemma_take_in_second(head, payload, k);
        UnsignedVarInt32::lemma_round_trip(header, payload.take(k - head.len()));
    }
}

pub proof fn lemma_compact_null_truncated(k: int)
    ensures
        0 <= k < varint_bytes(0).len() ==> parse_compact(varint_bytes(0).take(k)) == Err::<
            (Option<Seq<u8>>, Seq<u8>),
            CodecError,
        >(CodecError::ShortRead),
{
    UnsignedVarInt32::lemma_truncated(0, k);
}

/// Writes `bytes` behind their length as a signed big-endian number of `width` bytes.
pub(crate) fn write_bytes_with_size_header(writer: &mut Vec<u8>, bytes: &[u8], width: usize) -> (r:
    Result<(), CodecError>)
    requires
        width == 2 || width == 4,
    ensures
        match sized_error(bytes@.len(), width as nat) {
            None => r is Ok && final(writer)@ == old(writer)@ + sized_wire(bytes@, width as nat),
            Some(e) => r == Err::<(), CodecError>(e) && final(writer)@ == old(writer)@,
        },
{
    proof {
        lemma_pow256_values();
    }
    let limit: usize = if width == 2 {
        0x7fff
    } else {
        0x7fff_ffff
    };
    if bytes.len() >= limit {
        return Err(CodecError::TooManyBytes(TooManyBytesError { size: bytes.len() }));
    }
    write_be(writer, bytes.len() as u128, width);
    write_all(writer, bytes);
    proof {
        lemma_add_assoc(old(writer)@, be_bytes(bytes@.len(), width as nat), bytes@);
    }
    Ok(())
}

/// Writes the header that stands for null: -1 in `width` bytes.
pub(crate) fn write_null_size_header(writer: &mut Vec<u8>, width: usize)
    requires
        width == 2 || width == 4,
    ensures
        final(writer)@ == old(writer)@ + sized_null(width as nat),
{
    proof {
        lemma_pow256_values();
    }
    let all_ones: u128 = if width == 2 {
        0xffff
    } else {
        0xffff_ffff
    };
    write_be(writer, all_ones, width);
}

/// Reads a signed length of `width` bytes and that many bytes behind it; `None` for the
/// length -1.
pub(crate) fn read_bytes_with_size_header<'a>(reader: &mut &'a [u8], width: usize) -> (r: Result<
    Option<&'a [u8]>,
    CodecError,
>)
    requires
        width == 2 || width == 4,
    ensures
        is_suffix_of(final(reader)@, old(reader)@),
        match parse_sized(old(reader)@, width as nat) {
            Ok((found, rest)) => final(reader)@ == rest && match found {
                Some(bytes) => r matches Ok(Some(b)) && b@ == bytes,
                None => r matches Ok(None),
            },
            Err(e) => r matches Err(x) && x == e && final(reader)@ == sized_unread(
                old(reader)@,
                width as nat,
            ),
        },
{
    proof {
        lemma_pow256_values();
        lemma_suffix_refl(reader@);
    }
    let header: u128 = match read_fixed(reader, width) {
        Ok(x) => x,
        Err(e) => {
            return Err(e);
        },
    };
    proof {
        lemma_suffix_skip(old(reader)@, width as int);
    }
    let all_ones: u128 = if width == 2 {
        0xffff
    } else {
        0xffff_ffff
    };
    let limit: u128 = if width == 2 {
        0x7fff
    } else {
        0x7fff_ffff
    };
    if header == all_ones {
        return Ok(None);
    }
    if header > limit {
        return Err(CodecError::ShortRead);
    }
    if header > reader.len() as u128 {
        return Err(CodecError::ShortRead);
    }
    let ghost after_header = reader@;
    match take_bytes(reader, header as usize) {
        Ok(bytes) => {
            proof {
                lemma_suffix_skip(after_header, header as int);
                lemma_suffix_trans(reader@, after_header, old(reader)@);
            }
            Ok(Some(bytes))
        },
        Err(e) => Err(e),
    }
}

/// Writes `bytes_to_write` behind an unsigned varint that holds their number plus one.
pub fn write_bytes_with_unsigned_varint_size_header(
    writer: &mut Vec<u8>,
    bytes_to_write: &[u8],
) -> (r: Result<(), CodecError>)
    ensures
        match compact_error(bytes_to_write@.len()) {
            None => r is Ok && final(writer)@ == old(writer)@ + compact_wire(bytes_to_write@),
            Some(e) => r == Err::<(), CodecError>(e) && final(writer)@ == old(writer)@,
        },
{
    if bytes_to_write.len() >= 0xffff_ffff {
        return Err(CodecError::TooManyBytes(TooManyBytesError { size: bytes_to_write.len() }));
    }
    let header: u32 = (bytes_to_write.len() + 1) as u32;
    let _ = UnsignedVarInt32(header).to_kafka_bytes(writer);
    write_all(writer, bytes_to_write);
    proof {
        lemma_add_assoc(
            old(writer)@,
            varint_bytes((bytes_to_write@.len() + 1) as nat),
            bytes_to_write@,
        );
    }
    Ok(())
}

/// Writes the compact header that stands for null: 0.
pub fn write_null_unsigned_varint_size_header(writer: &mut Vec<u8>)
    ensures
        final(writer)@ == old(writer)@ + varint_bytes(0),
{
    let _ = UnsignedVarInt32(0).to_kafka_bytes(writer);
}

/// Reads an unsigned varint and one byte less than it says; `None` for the header 0.
pub fn read_optional_bytes_with_unsigned_varint_size_header<'a>(reader: &mut &'a [u8]) -> (r:
    Result<Option<&'a [u8]>, CodecError>)
    ensures
        is_suffix_of(final(reader)@, old(reader)@),
        match parse_compact(old(reader)@) {
            Ok((found, rest)) => final(reader)@ == rest && match found {
                Some(bytes) => r matches Ok(Some(b)) && b@ == bytes,
                None => r matches Ok(None),
            },
            Err(e) => r matches Err(x) && x == e && final(reader)@ == compact_unread(
                old(reader)@,
            ),
        },
{
    let header: u32 = match UnsignedVarInt32::from_kafka_bytes(reader) {
        Ok(h) => h.0,
        Err(e) => {
            return Err(e);
        },
    };
    if header == 0 {
        return Ok(None);
    }
    let wanted: u32 = header - 1;
    if wanted as u64 > reader.len() as u64 {
        return Err(CodecError::ShortRead);
    }
    let ghost after_header = reader@;
    match take_bytes(reader, wanted as usize) {
        Ok(bytes) => {
            proof {
                lemma_suffix_skip(after_header, wanted as int);
                lemma_suffix_trans(reader@, after_header, old(reader)@);
            }
            Ok(Some(bytes))
        },
        Err(e) => Err(e),
    }
}

/// Reads an unsigned varint and one byte less than it says. A header of 0, which leaves no
/// length, is reported as a short read.
pub fn read_bytes_with_unsigned_varint_size_header(reader: &mut &[u8]) -> (r: Result<
    Vec<u8>,
    CodecError,
>)
    ensures
        is_suffix_of(final(reader)@, old(reader)@),
        match parse_compact(old(reader)@) {
            Ok((Some(bytes), rest)) => r matches Ok(b) && b@ == bytes && final(reader)@ == rest,
            Ok((None, rest)) => r == Err::<Vec<u8>, CodecError>(CodecError::ShortRead)
                && final(reader)@ == rest,
            Err(e) => r matches Err(x) && x == e && final(reader)@ == compact_unread(
                old(reader)@,
            ),
        },
{
    match read_optional_bytes_with_unsigned_varint_size_header(reader) {
        Ok(Some(bytes)) => Ok(slice_to_vec(bytes)),
        Ok(None) => Err(CodecError::ShortRead),
        Err(e) => Err(e),
    }
}

} // verus!
