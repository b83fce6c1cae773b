//! Varints: integers in groups of seven bits, least significant group first, where the high
//! bit of a byte says that another byte follows.
use vstd::prelude::*;
use vstd::slice::slice_subrange;
use integer_encoding::VarInt;
use crate::codec::KafkaEncodable;
use crate::err::CodecError;
use crate::fixed::signed_of;
use crate::primitives::{UnsignedVarInt32, VarI32, VarI64};
use crate::seqs::{lemma_suffix_refl, lemma_suffix_skip};

verus! {

/// The varint that holds `n`.
pub open spec fn varint_bytes(n: nat) -> Seq<u8>
    decreases n,
{
    if n < 128 {
        seq![n as u8]
    } else {
        seq![(n % 128 + 128) as u8] + varint_bytes(n / 128)
    }
}

/// The number that the seven-bit groups of `s` hold, least significant group first.
pub open spec fn varint_value(s: Seq<u8>) -> nat
    decreases s.len(),
{
    if s.len() == 0 {
        0
    } else {
        (s[0] % 128) as nat + 128 * varint_value(s.skip(1))
    }
}

/// The zigzag transform, which keeps numbers of small magnitude small.
pub open spec fn zigzag(x: int) -> nat {
    if x >= 0 {
        (2 * x) as nat
    } else {
        (-2 * x - 1) as nat
    }
}

/// The inverse of `zigzag`.
pub open spec fn unzigzag(u: nat) -> int {
    if u % 2 == 0 {
        (u / 2) as int
    } else {
        -((u / 2) as int) - 1
    }
}

/// `s` is one whole varint: every byte but the last has its high bit set.
pub open spec fn is_varint_frame(s: Seq<u8>) -> bool {
    &&& s.len() >= 1
    &&& s.last() < 128
    &&& forall|i: int| 0 <= i < s.len() - 1 ==> s[i] >= 128
}

/// The length of the varint at the front of `s`, which may take `max` bytes at most.
///
/// A varint that the input cuts short is a short read; one that has not ended after `max`
/// bytes is malformed, whatever follows.
pub open spec fn varint_frame(s: Seq<u8>, max: nat) -> Result<nat, CodecError>
    decreases max,
{
    if max == 0 {
        Err(CodecError::MalformedVarInt)
    } else if s.len() == 0 {
        Err(CodecError::ShortRead)
    } else if s[0] < 128 {
        Ok(1)
    } else {
        match varint_frame(s.skip(1), (max - 1) as nat) {
            Ok(n) => Ok(n + 1),
            Err(e) => Err(e),
        }
    }
}

/// Reads an unsigned varint of `max` bytes at most, as a number of any size.
pub open spec fn parse_varint(s: Seq<u8>, max: nat) -> Result<(nat, Seq<u8>), CodecError> {
    match varint_frame(s, max) {
        Ok(n) => Ok((varint_value(s.take(n as int)), s.skip(n as int))),
        Err(e) => Err(e),
    }
}

/// 128 to the power `n`.
pub open spec fn pow128(n: nat) -> nat
    decreases n,
{
    if n == 0 {
        1
    } else {
        128 * pow128((n - 1) as nat)
    }
}

pub proof fn lemma_pow128_values()
    ensures
        pow128(5) == 0x8_0000_0000,
        pow128(10) == 0x40_0000_0000_0000_0000,
{
    reveal_with_fuel(pow128, 11);
}

pub proof fn lemma_zigzag(x: int)
    ensures
        unzigzag(zigzag(x)) == x,
{
}

/// The varint of a number below `128^k` has `k` bytes at most, and is one whole varint.
pub proof fn lemma_varint_bytes_frame(n: nat, k: nat)
    requires
        n < pow128(k),
    ensures
        is_varint_frame(varint_bytes(n)),
        1 <= varint_bytes(n).len(),
        k >= 1 ==> varint_bytes(n).len() <= k,
        varint_value(varint_bytes(n)) == n,
    decreases n,
{
    reveal_with_fuel(pow128, 2);
    let w = varint_bytes(n);
    if n < 128 {
        assert(w.skip(1) =~= Seq::<u8>::empty());
        reveal_with_fuel(varint_value, 2);
    } else {
        let tail = varint_bytes(n / 128);
        if k >= 1 {
            lemma_varint_bytes_frame(n / 128, (k - 1) as nat);
        } else {
            lemma_varint_bytes_frame(n / 128, 0);
        }
        assert(w.skip(1) =~= tail);
        assert(w.last() == tail.last());
        assert forall|i: int| 0 <= i < w.len() - 1 implies w[i] >= 128 by {
            if i > 0 {
                assert(w[i] == tail[i - 1]);
            }
        }
    }
}

/// A whole varint of `max` bytes at most is found at the front of whatever it is followed by.
pub proof fn lemma_frame_found(w: Seq<u8>, rest: Seq<u8>, max: nat)
    requires
        is_varint_frame(w),
        w.len() <= max,
    ensures
        varint_frame(w + rest, max) == Ok::<nat, CodecError>(w.len()),
    decreases w.len(),
{
    let s = w + rest;
    if w.len() == 1 {
    } else {
        assert(s[0] == w[0]);
        let w1 = w.skip(1);
        assert(w1.last() == w.last());
        assert forall|i: int| 0 <= i < w1.len() - 1 implies w1[i] >= 128 by {
            assert(w1[i] == w[i + 1]);
        }
        lemma_frame_found(w1, rest, (max - 1) as nat);
        assert(s.skip(1) =~= w1 + rest);
    }
}

/// A whole varint that lost bytes at its end is a short read.
pub proof fn lemma_frame_truncated(w: Seq<u8>, k: int, max: nat)
    requires
        is_varint_frame(w),
        w.len() <= max,
        0 <= k < w.len(),
    ensures
        varint_frame(w.take(k), max) == Err::<nat, CodecError>(CodecError::ShortRead),
    decreases k,
{
    let s = w.take(k);
    if k > 0 {
        assert(s[0] == w[0]);
        let w1 = w.skip(1);
        assert(w1.last() == w.last());
        assert forall|i: int| 0 <= i < w1.len() - 1 implies w1[i] >= 128 by {
            assert(w1[i] == w[i + 1]);
        }
        lemma_frame_truncated(w1, k - 1, (max - 1) as nat);
        assert(s.skip(1) =~= w1.take(k - 1));
    }
}

/// What `parse_varint` makes of the varint of `n` followed by `rest`.
pub proof fn lemma_parse_varint_round_trip(n: nat, k: nat, rest: Seq<u8>)
    requires
        k >= 1,
        n < pow128(k),
    ensures
        parse_varint(varint_bytes(n) + rest, k) == Ok::<(nat, Seq<u8>), CodecError>((n, rest)),
{
    let w = varint_bytes(n);
    lemma_varint_bytes_frame(n, k);
    lemma_frame_found(w, rest, k);
    assert((w + rest).take(w.len() as int) =~= w);
    assert((w + rest).skip(w.len() as int) =~= rest);
}

/// `parse_varint` on the varint of `n` after it lost bytes at its end.
pub proof fn lemma_parse_varint_truncated(n: nat, k: nat, cut: int)
    requires
        k >= 1,
        n < pow128(k),
    ensures
        0 <= cut < varint_bytes(n).len() ==> parse_varint(varint_bytes(n).take(cut), k) == Err::<
            (nat, Seq<u8>),
            CodecError,
        >(CodecError::ShortRead),
{
    lemma_varint_bytes_frame(n, k);
    if 0 <= cut < varint_bytes(n).len() {
        lemma_frame_truncated(varint_bytes(n), cut, k);
    }
}

/// Where the first `i` bytes all announce another byte, the varint ends where the varint
/// behind them ends.
proof fn lemma_frame_after(s: Seq<u8>, max: nat, i: nat)
    requires
        i <= max,
        i <= s.len(),
        forall|j: int| 0 <= j < i ==> s[j] >= 128,
    ensures
        varint_frame(s, max) == match varint_frame(s.skip(i as int), (max - i) as nat) {
            Ok(n) => Ok::<nat, CodecError>(n + i),
            Err(e) => Err(e),
        },
    decreases i,
{
    if i == 0 {
        assert(s.skip(0) =~= s);
    } else {
        let s1 = s.skip(1);
        assert forall|j: int| 0 <= j < i - 1 implies s1[j] >= 128 by {
            assert(s1[j] == s[j + 1]);
        }
        lemma_frame_after(s1, (max - 1) as nat, (i - 1) as nat);
        assert(s1.skip(i - 1) =~= s.skip(i as int));
    }
}

/// Takes the varint at the front of `reader`, which may have `max` bytes at most.
pub fn take_varint_frame<'a>(reader: &mut &'a [u8], max: usize) -> (r: Result<
    &'a [u8],
    CodecError,
>)
    ensures
        match varint_frame(old(reader)@, max as nat) {
            Ok(n) => r matches Ok(frame) && frame@ == old(reader)@.take(n as int)
                && is_varint_frame(frame@) && n <= max && n <= old(reader)@.len()
                && final(reader)@ == old(reader)@.skip(n as int),
            Err(e) => r == Err::<&[u8], CodecError>(e) && final(reader)@ == old(reader)@,
        },
{
    let all: &'a [u8] = *reader;
    let mut i: usize = 0;
    while i < max
        invariant
            i <= max,
            i <= all@.len(),
            all@ == old(reader)@,
            reader@ == old(reader)@,
            forall|j: int| 0 <= j < i ==> all@[j] >= 128,
        decreases max - i,
    {
        proof {
            lemma_frame_after(all@, max as nat, i as nat);
        }
        if i >= all.len() {
            return Err(CodecError::ShortRead);
        }
        if all[i] < 128 {
            let frame = slice_subrange(all, 0, i + 1);
            *reader = slice_subrange(all, i + 1, all.len());
            assert(all@.skip(i as int)[0] == all@[i as int]);
            return Ok(frame);
        }
        assert(all@.skip(i as int)[0] == all@[i as int]);
        i = i + 1;
    }
    proof {
        lemma_frame_after(all@, max as nat, i as nat);
    }
    Err(CodecError::MalformedVarInt)
}

/// `VarInt::encode_var_vec` of integer-encoding on a `u32`: the varint that holds `n`.
#[verifier::external_body]
fn encode_var_u32(n: u32) -> (bytes: Vec<u8>)
    ensures
        bytes@ == varint_bytes(n as nat),
{
    n.encode_var_vec()
}

/// `VarInt::encode_var_vec` of integer-encoding on an `i32`: the varint that holds the
/// zigzag transform of `n`.
#[verifier::external_body]
fn encode_var_i32(n: i32) -> (bytes: Vec<u8>)
    ensures
        bytes@ == varint_bytes(zigzag(n as int)),
{
    n.encode_var_vec()
}

/// `VarInt::encode_var_vec` of integer-encoding on an `i64`: the varint that holds the
/// zigzag transform of `n`.
#[verifier::external_body]
fn encode_var_i64(n: i64) -> (bytes: Vec<u8>)
    ensures
        bytes@ == varint_bytes(zigzag(n as int)),
{
    n.encode_var_vec()
}

/// `VarInt::decode_var` of integer-encoding for `u32`, on one whole varint of five bytes at
/// most: the number that the groups hold, cut to its low 32 bits, and the number of bytes.
#[verifier::external_body]
fn decode_var_u32(frame: &[u8]) -> (r: Option<(u32, usize)>)
    requires
        is_varint_frame(frame@),
        frame@.len() <= 5,
    ensures
        r == Some(((varint_value(frame@) % 0x1_0000_0000) as u32, frame@.len() as usize)),
{
    u32::decode_var(frame)
}

/// `VarInt::decode_var` of integer-encoding for `i32`, on one whole varint of five bytes at
/// most: the zigzag transform undone on the number that the groups hold, cut to its low 32
/// bits and read as two's complement, and the number of bytes.
#[verifier::external_body]
fn decode_var_i32(frame: &[u8]) -> (r: Option<(i32, usize)>)
    requires
        is_varint_frame(frame@),
        frame@.len() <= 5,
    ensures
        r == Some((wrapped_i32(unzigzag(varint_value(frame@))), frame@.len() as usize)),
{
    i32::decode_var(frame)
}

/// `VarInt::decode_var` of integer-encoding for `i64`, on one whole varint of ten bytes at
/// most: the zigzag transform undone on the low 64 bits of the number that the groups hold,
/// and the number of bytes.
#[verifier::external_body]
fn decode_var_i64(frame: &[u8]) -> (r: Option<(i64, usize)>)
    requires
        is_varint_frame(frame@),
        frame@.len() <= 10,
    ensures
        r == Some(
            (
                unzigzag(varint_value(frame@) % 0x1_0000_0000_0000_0000) as i64,
                frame@.len() as usize,
            ),
        ),
{
    i64::decode_var(frame)
}

/// The low 32 bits of `x`, read as two's complement.
pub open spec fn wrapped_i32(x: int) -> i32 {
    signed_of((x % 0x1_0000_0000) as nat, 4) as i32
}

// UNSIGNED_VARINT
impl KafkaEncodable for UnsignedVarInt32 {
    type Value = u32;

    open spec fn value(&self) -> u32 {
        self.0
    }

    open spec fn encode_error(v: u32) -> Option<CodecError> {
        None
    }

    open spec fn wire(v: u32) -> Seq<u8> {
        varint_bytes(v as nat)
    }

    /// Five bytes at most; bits above the 32nd are dropped.
    open spec fn parse(s: Seq<u8>) -> Result<(u32, Seq<u8>), CodecError> {
        match parse_varint(s, 5) {
            Ok((n, rest)) => Ok(((n % 0x1_0000_0000) as u32, rest)),
            Err(e) => Err(e),
        }
    }

    open spec fn written_before_error(v: Self::Value) -> Seq<u8> {
        Seq::<u8>::empty()
    }

    open spec fn unread_after_error(s: Seq<u8>) -> Seq<u8> {
        s
    }

    proof fn lemma_round_trip(v: u32, rest: Seq<u8>) {
        lemma_pow128_values();
        lemma_parse_varint_round_trip(v as nat, 5, rest);
    }

    proof fn lemma_truncated(v: u32, k: int) {
        lemma_pow128_values();
        lemma_parse_varint_truncated(v as nat, 5, k);
    }

    fn to_kafka_bytes(self, writer: &mut Vec<u8>) -> (r: Result<(), CodecError>) {
        let mut bytes = encode_var_u32(self.0);
        writer.append(&mut bytes);
        Ok(())
    }

    fn from_kafka_bytes(reader: &mut &[u8]) -> (r: Result<UnsignedVarInt32, CodecError>) {
        proof {
            lemma_suffix_refl(reader@);
        }
        match take_varint_frame(reader, 5) {
            Ok(frame) => {
                proof {
                    lemma_suffix_skip(old(reader)@, frame@.len() as int);
                }
                match decode_var_u32(frame) {
                    Some((n, _)) => Ok(UnsignedVarInt32(n)),
                    None => Err(CodecError::MalformedVarInt),
                }
            },
            Err(e) => Err(e),
        }
    }
}

// VARINT
impl KafkaEncodable for VarI32 {
    type Value = i32;

    open spec fn value(&self) -> i32 {
        self.0
    }

    open spec fn encode_error(v: i32) -> Option<CodecError> {
        None
    }

    open spec fn wire(v: i32) -> Seq<u8> {
        varint_bytes(zigzag(v as int))
    }

    /// Five bytes at most; bits above the 32nd are dropped after the zigzag transform is
    /// undone.
    open spec fn parse(s: Seq<u8>) -> Result<(i32, Seq<u8>), CodecError> {
        match parse_varint(s, 5) {
            Ok((n, rest)) => Ok((wrapped_i32(unzigzag(n)), rest)),
            Err(e) => Err(e),
        }
    }

    open spec fn written_before_error(v: Self::Value) -> Seq<u8> {
        Seq::<u8>::empty()
    }

    open spec fn unread_after_error(s: Seq<u8>) -> Seq<u8> {
        s
    }

    proof fn lemma_round_trip(v: i32, rest: Seq<u8>) {
        lemma_pow128_values();
        crate::fixed::lemma_pow256_values();
        lemma_zigzag(v as int);
        lemma_parse_varint_round_trip(zigzag(v as int), 5, rest);
    }

    proof fn lemma_truncated(v: i32, k: int) {
        lemma_pow128_values();
        lemma_parse_varint_truncated(zigzag(v as int), 5, k);
    }

    fn to_kafka_bytes(self, writer: &mut Vec<u8>) -> (r: Result<(), CodecError>) {
        let mut bytes = encode_var_i32(self.0);
        writer.append(&mut bytes);
        Ok(())
    }

    fn from_kafka_bytes(reader: &mut &[u8]) -> (r: Result<VarI32, CodecError>) {
        proof {
            lemma_suffix_refl(reader@);
        }
        match take_varint_frame(reader, 5) {
            Ok(frame) => {
                proof {
                    lemma_suffix_skip(old(reader)@, frame@.len() as int);
                }
                match decode_var_i32(frame) {
                    Some((n, _)) => Ok(VarI32(n)),
                    None => Err(CodecError::MalformedVarInt),
                }
            },
            Err(e) => Err(e),
        }
    }
}

// VARLONG
impl KafkaEncodable for VarI64 {
    type Value = i64;

    open spec fn value(&self) -> i64 {
        self.0
    }

    open spec fn encode_error(v: i64) -> Option<CodecError> {
        None
    }

    open spec fn wire(v: i64) -> Seq<u8> {
        varint_bytes(zigzag(v as int))
    }

    /// Ten bytes at most; bits above the 64th are dropped before the zigzag transform is
    /// undone.
    open spec fn parse(s: Seq<u8>) -> Result<(i64, Seq<u8>), CodecError> {
        match parse_varint(s, 10) {
            Ok((n, rest)) => Ok((unzigzag(n % 0x1_0000_0000_0000_0000) as i64, rest)),
            Err(e) => Err(e),
        }
    }

    open spec fn written_before_error(v: Self::Value) -> Seq<u8> {
        Seq::<u8>::empty()
    }

    open spec fn unread_after_error(s: Seq<u8>) -> Seq<u8> {
        s
    }

    proof fn lemma_round_trip(v: i64, rest: Seq<u8>) {
        lemma_pow128_values();
        lemma_zigzag(v as int);
        lemma_parse_varint_round_trip(zigzag(v as int), 10, rest);
    }

    proof fn lemma_truncated(v: i64, k: int) {
        lemma_pow128_values();
        lemma_parse_varint_truncated(zigzag(v as int), 10, k);
    }

    fn to_kafka_bytes(self, writer: &mut Vec<u8>) -> (r: Result<(), CodecError>) {
        let mut bytes = encode_var_i64(self.0);
        writer.append(&mut bytes);
        Ok(())
    }

    fn from_kafka_bytes(reader: &mut &[u8]) -> (r: Result<VarI64, CodecError>) {
        proof {
            lemma_suffix_refl(reader@);
        }
        match take_varint_frame(reader, 10) {
            Ok(frame) => {
                proof {
                    lemma_suffix_skip(old(reader)@, frame@.len() as int);
                }
                match decode_var_i64(frame) {
                    Some((n, _)) => Ok(VarI64(n)),
                    None => Err(CodecError::MalformedVarInt),
                }
            },
            Err(e) => Err(e),
        }
    }
}

} // verus!
