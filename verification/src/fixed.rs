//! Big-endian integers of fixed width.
use vstd::prelude::*;
use vstd::slice::slice_subrange;
use crate::err::CodecError;

verus! {

/// 256 to the power `n`.
pub open spec fn pow256(n: nat) -> nat
    decreases n,
{
    if n == 0 {
        1
    } else {
        256 * pow256((n - 1) as nat)
    }
}

/// The `width` low bytes of `x`, most significant first.
pub open spec fn be_bytes(x: nat, width: nat) -> Seq<u8>
    decreases width,
{
    if width == 0 {
        Seq::<u8>::empty()
    } else {
        be_bytes(x / 256, (width - 1) as nat).push((x % 256) as u8)
    }
}

/// The number that `s` holds, most significant byte first.
pub open spec fn be_value(s: Seq<u8>) -> nat
    decreases s.len(),
{
    if s.len() == 0 {
        0
    } else {
        be_value(s.drop_last()) * 256 + s.last() as nat
    }
}

/// The two's complement pattern of `x` in `width` bytes.
pub open spec fn unsigned_of(x: int, width: nat) -> nat {
    if x >= 0 {
        x as nat
    } else {
        (x + pow256(width)) as nat
    }
}

/// The signed number whose two's complement pattern in `width` bytes is `u`.
pub open spec fn signed_of(u: nat, width: nat) -> int {
    if 2 * u < pow256(width) {
        u as int
    } else {
        u - pow256(width)
    }
}

/// Reads `width` bytes as an unsigned big-endian number.
pub open spec fn parse_be(s: Seq<u8>, width: nat) -> Result<(nat, Seq<u8>), CodecError> {
    if s.len() < width {
        Err(CodecError::ShortRead)
    } else {
        Ok((be_value(s.take(width as int)), s.skip(width as int)))
    }
}

pub proof fn lemma_pow256_values()
    ensures
        pow256(0) == 1,
        pow256(1) == 0x100,
        pow256(2) == 0x1_0000,
        pow256(4) == 0x1_0000_0000,
        pow256(8) == 0x1_0000_0000_0000_0000,
        pow256(16) == 0x1_0000_0000_0000_0000_0000_0000_0000_0000,
{
    reveal_with_fuel(pow256, 17);
}

pub proof fn lemma_pow256_monotonic(a: nat, b: nat)
    requires
        a <= b,
    ensures
        pow256(a) <= pow256(b),
        pow256(a) >= 1,
    decreases b,
{
    if a < b {
        lemma_pow256_monotonic(a, (b - 1) as nat);
    } else if a > 0 {
        lemma_pow256_monotonic((a - 1) as nat, (a - 1) as nat);
    }
}

pub proof fn lemma_be_bytes_len(x: nat, width: nat)
    ensures
        be_bytes(x, width).len() == width,
    decreases width,
{
    if width > 0 {
        lemma_be_bytes_len(x / 256, (width - 1) as nat);
    }
}

/// A number that fits `width` bytes is read back from its bytes.
pub proof fn lemma_be_round_trip(x: nat, width: nat)
    requires
        x < pow256(width),
    ensures
        be_value(be_bytes(x, width)) == x,
    decreases width,
{
    if width > 0 {
        let front = be_bytes(x / 256, (width - 1) as nat);
        lemma_be_bytes_len(x / 256, (width - 1) as nat);
        lemma_be_round_trip(x / 256, (width - 1) as nat);
        assert(be_bytes(x, width).drop_last() =~= front);
    }
}

/// Two's complement in `width` bytes loses nothing of a number in the signed range.
pub proof fn lemma_signed_round_trip(x: int, width: nat)
    requires
        -(pow256(width) as int) <= 2 * x < pow256(width),
    ensures
        unsigned_of(x, width) < pow256(width),
        signed_of(unsigned_of(x, width), width) == x,
{
}

/// What `parse_be` makes of the bytes of `x` followed by `rest`.
pub proof fn lemma_parse_be_round_trip(x: nat, width: nat, rest: Seq<u8>)
    requires
        x < pow256(width),
    ensures
        parse_be(be_bytes(x, width) + rest, width) == Ok::<(nat, Seq<u8>), CodecError>((x, rest)),
{
    let w = be_bytes(x, width);
    lemma_be_bytes_len(x, width);
    lemma_be_round_trip(x, width);
    assert((w + rest).take(width as int) =~= w);
    assert((w + rest).skip(width as int) =~= rest);
}

/// `parse_be` on fewer bytes than the width.
pub proof fn lemma_parse_be_truncated(x: nat, width: nat, k: int)
    ensures
        be_bytes(x, width).len() == width,
        0 <= k < width ==> parse_be(be_bytes(x, width).take(k), width) == Err::<
            (nat, Seq<u8>),
            CodecError,
        >(CodecError::ShortRead),
{
    lemma_be_bytes_len(x, width);
}

/// Appends the `width` low bytes of `x` to `writer`, most significant first.
pub(crate) fn write_be(writer: &mut Vec<u8>, x: u128, width: usize)
    requires
        width <= 16,
        x < pow256(width as nat),
    ensures
        final(writer)@ == old(writer)@ + be_bytes(x as nat, width as nat),
    decreases width,
{
    if width == 0 {
        assert(writer@ =~= old(writer)@ + be_bytes(x as nat, 0));
    } else {
        write_be(writer, x / 256, width - 1);
        writer.push((x % 256) as u8);
        assert(writer@ =~= old(writer)@ + be_bytes(x as nat, width as nat));
    }
}

/// The number that `bytes` holds, most significant byte first.
pub(crate) fn read_be(bytes: &[u8]) -> (x: u128)
    requires
        bytes@.len() <= 16,
    ensures
        x == be_value(bytes@),
        x < pow256(bytes@.len()),
{
    let mut acc: u128 = 0;
    let mut i: usize = 0;
    while i < bytes.len()
        invariant
            i <= bytes@.len() <= 16,
            acc == be_value(bytes@.take(i as int)),
            acc < pow256(i as nat),
        decreases bytes@.len() - i,
    {
        proof {
            lemma_pow256_monotonic((i + 1) as nat, 16);
            lemma_pow256_values();
            assert(bytes@.take(i + 1).drop_last() =~= bytes@.take(i as int));
        }
        acc = acc * 256 + bytes[i] as u128;
        i = i + 1;
    }
    assert(bytes@.take(i as int) =~= bytes@);
    acc
}

/// Takes `n` bytes from the front of `reader`.
pub fn take_bytes<'a>(reader: &mut &'a [u8], n: usize) -> (r: Result<&'a [u8], CodecError>)
    ensures
        old(reader)@.len() < n ==> r == Err::<&[u8], CodecError>(CodecError::ShortRead)
            && final(reader)@ == old(reader)@,
        old(reader)@.len() >= n ==> (r matches Ok(b) && b@ == old(reader)@.take(n as int)
            && final(reader)@ == old(reader)@.skip(n as int)),
{
    let all: &'a [u8] = *reader;
    if all.len() < n {
        return Err(CodecError::ShortRead);
    }
    let head = slice_subrange(all, 0, n);
    *reader = slice_subrange(all, n, all.len());
    Ok(head)
}

/// Reads a big-endian number of `width` bytes from the front of `reader`.
pub(crate) fn read_fixed(reader: &mut &[u8], width: usize) -> (r: Result<u128, CodecError>)
    requires
        width <= 16,
    ensures
        match parse_be(old(reader)@, width as nat) {
            Ok((x, rest)) => r == Ok::<u128, CodecError>(x as u128) && x < pow256(width as nat)
                && final(reader)@ == rest,
            Err(e) => r == Err::<u128, CodecError>(e) && final(reader)@ == old(reader)@,
        },
{
    match take_bytes(reader, width) {
        Ok(bytes) => {
            let x: u128 = read_be(bytes);
            Ok(x)
        },
        Err(e) => Err(e),
    }
}

/// Appends `bytes` to `writer`.
pub fn write_all(writer: &mut Vec<u8>, bytes: &[u8])
    ensures
        final(writer)@ == old(writer)@ + bytes@,
{
    writer.extend_from_slice(bytes);
    assert(writer@ =~= old(writer)@ + bytes@);
}

} // verus!
