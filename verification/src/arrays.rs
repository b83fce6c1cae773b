//! Arrays: a count, in one of five encodings, and then the elements, each in the encoding of
//! its own type.
use vstd::prelude::*;
use crate::codec::KafkaEncodable;
use crate::err::{too_many, CodecError, TooManyBytesError};
use crate::primitives::{
    Array, CompactArray, CompactNullableArray, NullableArray, UnsignedVarInt32, VarArray,
};
use crate::sized::compact_error;
use crate::seqs::{
    is_suffix_of, lemma_add_assoc, lemma_suffix_refl, lemma_suffix_trans, lemma_take_in_first,
    lemma_take_in_second,
};

verus! {

/// The values of the items of `items`.
pub open spec fn values<T: KafkaEncodable>(items: Seq<T>) -> Seq<T::Value> {
    Seq::new(items.len(), |i: int| items[i].value())
}

/// The encodings of the elements of `v`, one behind the other.
pub open spec fn elements_wire<T: KafkaEncodable>(v: Seq<T::Value>) -> Seq<u8>
    decreases v.len(),
{
    if v.len() == 0 {
        Seq::<u8>::empty()
    } else {
        T::wire(v[0]) + elements_wire::<T>(v.skip(1))
    }
}

/// The error of the first element of `v` that cannot be written.
pub open spec fn elements_error<T: KafkaEncodable>(v: Seq<T::Value>) -> Option<CodecError>
    decreases v.len(),
{
    if v.len() == 0 {
        None
    } else {
        match T::encode_error(v[0]) {
            Some(e) => Some(e),
            None => elements_error::<T>(v.skip(1)),
        }
    }
}

/// Reads `n` elements, strictly in order; the first failure ends the reading.
pub open spec fn parse_elements<T: KafkaEncodable>(s: Seq<u8>, n: nat) -> Result<
    (Seq<T::Value>, Seq<u8>),
    CodecError,
>
    decreases n,
{
    if n == 0 {
        Ok((Seq::<T::Value>::empty(), s))
    } else {
        match T::parse(s) {
            Ok((x, after)) => prepend(seq![x], parse_elements::<T>(after, (n - 1) as nat)),
            Err(e) => Err(e),
        }
    }
}

/// What writing the elements of `v` has written when it stops at the first element that
/// cannot be written: the elements before it, and what that element has written itself.
pub open spec fn elements_written<T: KafkaEncodable>(v: Seq<T::Value>) -> Seq<u8>
    decreases v.len(),
{
    if v.len() == 0 {
        Seq::<u8>::empty()
    } else {
        match T::encode_error(v[0]) {
            Some(_) => T::written_before_error(v[0]),
            None => T::wire(v[0]) + elements_written::<T>(v.skip(1)),
        }
    }
}

/// What is left of `s` when reading `n` elements stops at the first element that cannot
/// be read.
pub open spec fn elements_unread<T: KafkaEncodable>(s: Seq<u8>, n: nat) -> Seq<u8>
    decreases n,
{
    if n == 0 {
        s
    } else {
        match T::parse(s) {
            Ok((_, after)) => elements_unread::<T>(after, (n - 1) as nat),
            Err(_) => T::unread_after_error(s),
        }
    }
}

/// Puts `front` before the elements that were read.
pub open spec fn prepend<V>(front: Seq<V>, read: Result<(Seq<V>, Seq<u8>), CodecError>) -> Result<
    (Seq<V>, Seq<u8>),
    CodecError,
> {
    match read {
        Ok((xs, rest)) => Ok((front + xs, rest)),
        Err(e) => Err(e),
    }
}

pub proof fn lemma_elements_push<T: KafkaEncodable>(v: Seq<T::Value>, x: T::Value)
    ensures
        elements_wire::<T>(v.push(x)) == elements_wire::<T>(v) + T::wire(x),
        elements_error::<T>(v.push(x)) == match elements_error::<T>(v) {
            Some(e) => Some(e),
            None => T::encode_error(x),
        },
    decreases v.len(),
{
    if v.len() == 0 {
        let tail = v.push(x).skip(1);
        assert(tail =~= Seq::<T::Value>::empty());
        assert(elements_wire::<T>(tail) == Seq::<u8>::empty());
        assert(elements_error::<T>(tail) is None);
        assert(elements_wire::<T>(v) == Seq::<u8>::empty());
        assert(T::wire(x) + Seq::<u8>::empty() =~= Seq::<u8>::empty() + T::wire(x));
    } else {
        lemma_elements_push::<T>(v.skip(1), x);
        assert(v.push(x).skip(1) =~= v.skip(1).push(x));
        lemma_add_assoc(T::wire(v[0]), elements_wire::<T>(v.skip(1)), T::wire(x));
    }
}

/// An error among the first `i` elements is the error of the whole.
pub proof fn lemma_elements_error_prefix<T: KafkaEncodable>(v: Seq<T::Value>, i: int)
    requires
        0 <= i <= v.len(),
        elements_error::<T>(v.take(i)) is Some,
    ensures
        elements_error::<T>(v) == elements_error::<T>(v.take(i)),
    decreases v.len() - i,
{
    if i < v.len() {
        lemma_elements_push::<T>(v.take(i), v[i]);
        assert(v.take(i + 1) =~= v.take(i).push(v[i]));
        lemma_elements_error_prefix::<T>(v, i + 1);
    } else {
        assert(v.take(i) =~= v);
    }
}

/// Where the element `i` is the first that cannot be written, the elements before it are
/// written whole.
pub proof fn lemma_elements_written<T: KafkaEncodable>(v: Seq<T::Value>, i: int)
    requires
        0 <= i < v.len(),
        elements_error::<T>(v.take(i)) is None,
        T::encode_error(v[i]) is Some,
    ensures
        elements_written::<T>(v) == elements_wire::<T>(v.take(i)) + T::written_before_error(
            v[i],
        ),
    decreases i,
{
    if i == 0 {
        assert(elements_wire::<T>(v.take(0)) == Seq::<u8>::empty());
        assert(Seq::<u8>::empty() + T::written_before_error(v[0]) =~= T::written_before_error(
            v[0],
        ));
    } else {
        assert(v.take(i)[0] == v[0]);
        assert(v.take(i).skip(1) =~= v.skip(1).take(i - 1));
        lemma_elements_written::<T>(v.skip(1), i - 1);
        lemma_add_assoc(
            T::wire(v[0]),
            elements_wire::<T>(v.skip(1).take(i - 1)),
            T::written_before_error(v[i]),
        );
    }
}

pub proof fn lemma_elements_round_trip<T: KafkaEncodable>(v: Seq<T::Value>, rest: Seq<u8>)
    requires
        elements_error::<T>(v) is None,
    ensures
        parse_elements::<T>(elements_wire::<T>(v) + rest, v.len()) == Ok::<
            (Seq<T::Value>, Seq<u8>),
            CodecError,
        >((v, rest)),
    decreases v.len(),
{
    if v.len() == 0 {
        assert(elements_wire::<T>(v) + rest =~= rest);
        assert(v =~= Seq::<T::Value>::empty());
    } else {
        let tail = elements_wire::<T>(v.skip(1));
        lemma_add_assoc(T::wire(v[0]), tail, rest);
        T::lemma_round_trip(v[0], tail + rest);
        lemma_elements_round_trip::<T>(v.skip(1), rest);
        assert(seq![v[0]] + v.skip(1) =~= v);
    }
}

pub proof fn lemma_elements_truncated<T: KafkaEncodable>(v: Seq<T::Value>, k: int)
    requires
        elements_error::<T>(v) is None,
    ensures
        0 <= k < elements_wire::<T>(v).len() ==> parse_elements::<T>(
            elements_wire::<T>(v).take(k),
            v.len(),
        ) == Err::<(Seq<T::Value>, Seq<u8>), CodecError>(CodecError::ShortRead),
    decreases v.len(),
{
    if v.len() > 0 {
        let first = T::wire(v[0]);
        let tail = elements_wire::<T>(v.skip(1));
        if 0 <= k < first.len() {
            lemma_take_in_first(first, tail, k);
            T::lemma_truncated(v[0], k);
        } else if first.len() <= k < first.len() + tail.len() {
            lemma_take_in_second(first, tail, k);
            T::lemma_round_trip(v[0], tail.take(k - first.len()));
            lemma_elements_truncated::<T>(v.skip(1), k - first.len());
        }
    }
}

/// Writes the elements one behind the other.
pub fn write_elements<T: KafkaEncodable>(elements: Vec<T>, writer: &mut Vec<u8>) -> (r: Result<
    (),
    CodecError,
>)
    ensures
        match elements_error::<T>(values(elements@)) {
            None => r is Ok && final(writer)@ == old(writer)@ + elements_wire::<T>(
                values(elements@),
            ),
            Some(e) => r == Err::<(), CodecError>(e) && final(writer)@ == old(writer)@
                + elements_written::<T>(values(elements@)),
        },
{
    let ghost all = values(elements@);
    proof {
        assert(all.take(0) =~= Seq::<T::Value>::empty());
        assert(writer@ =~= old(writer)@ + elements_wire::<T>(all.take(0)));
    }
    for element in it: elements
        invariant
            it.seq() == elements@,
            all == values(elements@),
            elements_error::<T>(all.take(it.index() as int)) is None,
            writer@ == old(writer)@ + elements_wire::<T>(all.take(it.index() as int)),
    {
        let ghost i = it.index() as int;
        proof {
            lemma_elements_push::<T>(all.take(i), all[i]);
            assert(all.take(i + 1) =~= all.take(i).push(all[i]));
        }
        match element.to_kafka_bytes(writer) {
            Ok(()) => {
                proof {
                    lemma_add_assoc(
                        old(writer)@,
                        elements_wire::<T>(all.take(i)),
                        T::wire(all[i]),
                    );
                }
            },
            Err(e) => {
                proof {
                    lemma_elements_error_prefix::<T>(all, i + 1);
                    lemma_elements_written::<T>(all, i);
                    lemma_add_assoc(
                        old(writer)@,
                        elements_wire::<T>(all.take(i)),
                        T::written_before_error(all[i]),
                    );
                }
                return Err(e);
            },
        }
    }
    proof {
        assert(all.take(all.len() as int) =~= all);
    }
    Ok(())
}

/// Reads `count` elements, strictly in order.
pub fn read_elements<T: KafkaEncodable>(reader: &mut &[u8], count: u64) -> (r: Result<
    Vec<T>,
    CodecError,
>)
    ensures
        is_suffix_of(final(reader)@, old(reader)@),
        match parse_elements::<T>(old(reader)@, count as nat) {
            Ok((v, rest)) => r matches Ok(items) && values(items@) == v && final(reader)@ == rest,
            Err(e) => r matches Err(x) && x == e && final(reader)@ == elements_unread::<T>(
                old(reader)@,
                count as nat,
            ),
        },
{
    let mut elements: Vec<T> = Vec::new();
    let mut i: u64 = 0;
    proof {
        lemma_suffix_refl(reader@);
        assert(values(elements@) =~= Seq::<T::Value>::empty());
        lemma_prepend_nothing::<T::Value>(parse_elements::<T>(reader@, count as nat));
    }
    while i < count
        invariant
            i <= count,
            is_suffix_of(reader@, old(reader)@),
            elements_unread::<T>(old(reader)@, count as nat) == elements_unread::<T>(
                reader@,
                (count - i) as nat,
            ),
            parse_elements::<T>(old(reader)@, count as nat) == prepend(
                values(elements@),
                parse_elements::<T>(reader@, (count - i) as nat),
            ),
        decreases count - i,
    {
        let ghost before = reader@;
        let ghost front = values(elements@);
        match T::from_kafka_bytes(reader) {
            Ok(element) => {
                proof {
                    lemma_suffix_trans(reader@, before, old(reader)@);
                    lemma_prepend_twice::<T::Value>(
                        front,
                        element.value(),
                        parse_elements::<T>(reader@, (count - i - 1) as nat),
                    );
                }
                elements.push(element);
                proof {
                    assert(values(elements@) =~= front.push(element.value()));
                }
            },
            Err(e) => {
                proof {
                    lemma_suffix_trans(reader@, before, old(reader)@);
                }
                return Err(e);
            },
        }
        i = i + 1;
    }
    proof {
        assert(values(elements@) + Seq::<T::Value>::empty() =~= values(elements@));
    }
    Ok(elements)
}

proof fn lemma_prepend_nothing<V>(read: Result<(Seq<V>, Seq<u8>), CodecError>)
    ensures
        prepend(Seq::<V>::empty(), read) == read,
{
    match read {
        Ok((xs, rest)) => {
            assert(Seq::<V>::empty() + xs =~= xs);
        },
        Err(e) => {},
    }
}

proof fn lemma_prepend_twice<V>(front: Seq<V>, x: V, read: Result<(Seq<V>, Seq<u8>), CodecError>)
    ensures
        prepend(front, prepend(seq![x], read)) == prepend(front.push(x), read),
{
    match read {
        Ok((xs, rest)) => {
            assert(front + (seq![x] + xs) =~= front.push(x) + xs);
        },
        Err(e) => {},
    }
}

/// The error for `n` elements that a signed 32-bit count cannot hold.
pub open spec fn count_error(n: nat) -> Option<CodecError> {
    if n >= 0x7fff_ffff {
        Some(too_many(n))
    } else {
        None
    }
}

/// The number of elements that a signed 32-bit count announces: none where it is negative.
pub open spec fn announced(n: i32) -> nat {
    if n < 0 {
        0
    } else {
        n as nat
    }
}

/// Wraps the elements that were read as a collection that is not null.
pub open spec fn present<V>(read: Result<(Seq<V>, Seq<u8>), CodecError>) -> Result<
    (Option<Seq<V>>, Seq<u8>),
    CodecError,
> {
    match read {
        Ok((xs, rest)) => Ok((Some(xs), rest)),
        Err(e) => Err(e),
    }
}

/// Writes a count, as the header of one of the five encodings, and the elements behind it.
fn write_behind_header<T: KafkaEncodable, H: KafkaEncodable>(
    header: H,
    elements: Vec<T>,
    writer: &mut Vec<u8>,
) -> (r: Result<(), CodecError>)
    requires
        H::encode_error(header.value()) is None,
    ensures
        match elements_error::<T>(values(elements@)) {
            None => r is Ok && final(writer)@ == old(writer)@ + (H::wire(header.value())
                + elements_wire::<T>(values(elements@))),
            Some(e) => r == Err::<(), CodecError>(e) && final(writer)@ == old(writer)@
                + (H::wire(header.value()) + elements_written::<T>(values(elements@))),
        },
{
    let ghost head = H::wire(header.value());
    let _ = header.to_kafka_bytes(writer);
    match write_elements(elements, writer) {
        Ok(()) => {
            proof {
                lemma_add_assoc(old(writer)@, head, elements_wire::<T>(values(elements@)));
            }
            Ok(())
        },
        Err(e) => {
            proof {
                lemma_add_assoc(old(writer)@, head, elements_written::<T>(values(elements@)));
            }
            Err(e)
        },
    }
}

/// What reading makes of a header followed by elements and by `rest`.
proof fn lemma_behind_header_round_trip<T: KafkaEncodable, H: KafkaEncodable>(
    header: H::Value,
    v: Seq<T::Value>,
    rest: Seq<u8>,
)
    requires
        H::encode_error(header) is None,
        elements_error::<T>(v) is None,
    ensures
        H::parse((H::wire(header) + elements_wire::<T>(v)) + rest) == Ok::<
            (H::Value, Seq<u8>),
            CodecError,
        >((header, elements_wire::<T>(v) + rest)),
        parse_elements::<T>(elements_wire::<T>(v) + rest, v.len()) == Ok::<
            (Seq<T::Value>, Seq<u8>),
            CodecError,
        >((v, rest)),
{
    lemma_add_assoc(H::wire(header), elements_wire::<T>(v), rest);
    H::lemma_round_trip(header, elements_wire::<T>(v) + rest);
    lemma_elements_round_trip::<T>(v, rest);
}

/// What reading makes of a header followed by elements, after bytes were lost at the end:
/// either the header is cut short, or it is read and the elements are cut short.
proof fn lemma_behind_header_truncated<T: KafkaEncodable, H: KafkaEncodable>(
    header: H::Value,
    v: Seq<T::Value>,
    k: int,
)
    requires
        H::encode_error(header) is None,
        elements_error::<T>(v) is None,
    ensures
        0 <= k < (H::wire(header) + elements_wire::<T>(v)).len() ==> ({
            let cut = (H::wire(header) + elements_wire::<T>(v)).take(k);
            ||| H::parse(cut) == Err::<(H::Value, Seq<u8>), CodecError>(CodecError::ShortRead)
            ||| exists|after: Seq<u8>|
                H::parse(cut) == Ok::<(H::Value, Seq<u8>), CodecError>((header, after))
                    && parse_elements::<T>(after, v.len()) == Err::<
                    (Seq<T::Value>, Seq<u8>),
                    CodecError,
                >(CodecError::ShortRead)
        }),
{
    let head = H::wire(header);
    let body = elements_wire::<T>(v);
    if 0 <= k < head.len() {
        lemma_take_in_first(head, body, k);
        H::lemma_truncated(header, k);
    } else if head.len() <= k < head.len() + body.len() {
        lemma_take_in_second(head, body, k);
        H::lemma_round_trip(header, body.take(k - head.len()));
        lemma_elements_truncated::<T>(v, k - head.len());
    }
}

// ARRAY
impl<T: KafkaEncodable> KafkaEncodable for Array<T> {
    type Value = Seq<T::Value>;

    open spec fn value(&self) -> Seq<T::Value> {
        values(self.0@)
    }

    /// Too many elements for the count, or else the error of the first element that cannot
    /// be written.
    open spec fn encode_error(v: Seq<T::Value>) -> Option<CodecError> {
        match count_error(v.len()) {
            Some(e) => Some(e),
            None => elements_error::<T>(v),
        }
    }

    open spec fn wire(v: Seq<T::Value>) -> Seq<u8> {
        i32::wire(v.len() as i32) + elements_wire::<T>(v)
    }

    /// A negative count announces no elements.
    open spec fn parse(s: Seq<u8>) -> Result<(Seq<T::Value>, Seq<u8>), CodecError> {
        match i32::parse(s) {
            Ok((n, rest)) => parse_elements::<T>(rest, announced(n)),
            Err(e) => Err(e),
        }
    }

    /// Nothing where the count is refused; otherwise the count and what the elements have
    /// written.
    open spec fn written_before_error(v: Self::Value) -> Seq<u8> {
        match count_error(v.len()) {
            Some(_) => Seq::<u8>::empty(),
            None => i32::wire(v.len() as i32) + elements_written::<T>(v),
        }
    }

    open spec fn unread_after_error(s: Seq<u8>) -> Seq<u8> {
        match i32::parse(s) {
            Ok((n, rest)) => elements_unread::<T>(rest, announced(n)),
            Err(_) => s,
        }
    }

    proof fn lemma_round_trip(v: Seq<T::Value>, rest: Seq<u8>) {
        lemma_behind_header_round_trip::<T, i32>(v.len() as i32, v, rest);
    }

    proof fn lemma_truncated(v: Seq<T::Value>, k: int) {
        lemma_behind_header_truncated::<T, i32>(v.len() as i32, v, k);
    }

    fn to_kafka_bytes(self, writer: &mut Vec<u8>) -> (r: Result<(), CodecError>) {
        let elements = self.0;
        let n: usize = elements.len();
        if n >= 0x7fff_ffff {
            return Err(CodecError::TooManyBytes(TooManyBytesError { size: n }));
        }
        write_behind_header(n as i32, elements, writer)
    }

    fn from_kafka_bytes(reader: &mut &[u8]) -> (r: Result<Array<T>, CodecError>) {
        let n: i32 = match i32::from_kafka_bytes(reader) {
            Ok(n) => n,
            Err(e) => {
                return Err(e);
            },
        };
        let ghost middle = reader@;
        let count: u64 = if n < 0 {
            0
        } else {
            n as u64
        };
        let read = read_elements::<T>(reader, count);
        proof {
            lemma_suffix_trans(reader@, middle, old(reader)@);
        }
        match read {
            Ok(elements) => Ok(Array(elements)),
            Err(e) => Err(e),
        }
    }
}

// NULLABLE_ARRAY
impl<T: KafkaEncodable> KafkaEncodable for NullableArray<T> {
    type Value = Option<Seq<T::Value>>;

    open spec fn value(&self) -> Option<Seq<T::Value>> {
        match self.0 {
            Some(items) => Some(values(items@)),
            None => None,
        }
    }

    /// Too many elements for the count, or else the error of the first element that cannot
    /// be written.
    open spec fn encode_error(v: Option<Seq<T::Value>>) -> Option<CodecError> {
        match v {
            Some(xs) => match count_error(xs.len()) {
                Some(e) => Some(e),
                None => elements_error::<T>(xs),
            },
            None => None,
        }
    }

    open spec fn wire(v: Option<Seq<T::Value>>) -> Seq<u8> {
        match v {
            Some(xs) => i32::wire(xs.len() as i32) + elements_wire::<T>(xs),
            None => i32::wire(-1i32),
        }
    }

    open spec fn parse(s: Seq<u8>) -> Result<(Option<Seq<T::Value>>, Seq<u8>), CodecError> {
        match i32::parse(s) {
            Ok((n, rest)) => if n == -1 {
                Ok((None, rest))
            } else {
                present(parse_elements::<T>(rest, announced(n)))
            },
            Err(e) => Err(e),
        }
    }

    /// Nothing where the count is refused; otherwise the count and what the elements have
    /// written.
    open spec fn written_before_error(v: Self::Value) -> Seq<u8> {
        match v {
            Some(xs) => match count_error(xs.len()) {
                Some(_) => Seq::<u8>::empty(),
                None => i32::wire(xs.len() as i32) + elements_written::<T>(xs),
            },
            None => Seq::<u8>::empty(),
        }
    }

    open spec fn unread_after_error(s: Seq<u8>) -> Seq<u8> {
        match i32::parse(s) {
            Ok((n, rest)) => elements_unread::<T>(rest, announced(n)),
            Err(_) => s,
        }
    }

    proof fn lemma_round_trip(v: Option<Seq<T::Value>>, rest: Seq<u8>) {
        match v {
            Some(xs) => {
                lemma_behind_header_round_trip::<T, i32>(xs.len() as i32, xs, rest);
            },
            None => {
                i32::lemma_round_trip(-1i32, rest);
            },
        }
    }

    proof fn lemma_truncated(v: Option<Seq<T::Value>>, k: int) {
        match v {
            Some(xs) => {
                lemma_behind_header_truncated::<T, i32>(xs.len() as i32, xs, k);
            },
            None => {
                i32::lemma_truncated(-1i32, k);
            },
        }
    }

    fn to_kafka_bytes(self, writer: &mut Vec<u8>) -> (r: Result<(), CodecError>) {
        match self.0 {
            Some(elements) => {
                let n: usize = elements.len();
                if n >= 0x7fff_ffff {
                    return Err(CodecError::TooManyBytes(TooManyBytesError { size: n }));
                }
                write_behind_header(n as i32, elements, writer)
            },
            None => (-1i32).to_kafka_bytes(writer),
        }
    }

    fn from_kafka_bytes(reader: &mut &[u8]) -> (r: Result<NullableArray<T>, CodecError>) {
        let n: i32 = match i32::from_kafka_bytes(reader) {
            Ok(n) => n,
            Err(e) => {
                return Err(e);
            },
        };
        if n == -1 {
            return Ok(NullableArray(None));
        }
        let ghost middle = reader@;
        let count: u64 = if n < 0 {
            0
        } else {
            n as u64
        };
        let read = read_elements::<T>(reader, count);
        proof {
            lemma_suffix_trans(reader@, middle, old(reader)@);
        }
        match read {
            Ok(elements) => Ok(NullableArray(Some(elements))),
            Err(e) => Err(e),
        }
    }
}

// COMPACT_ARRAY
impl<T: KafkaEncodable> KafkaEncodable for CompactArray<T> {
    type Value = Seq<T::Value>;

    open spec fn value(&self) -> Seq<T::Value> {
        values(self.0@)
    }

    /// Too many elements for the count, or else the error of the first element that cannot
    /// be written.
    open spec fn encode_error(v: Seq<T::Value>) -> Option<CodecError> {
        match compact_error(v.len()) {
            Some(e) => Some(e),
            None => elements_error::<T>(v),
        }
    }

    open spec fn wire(v: Seq<T::Value>) -> Seq<u8> {
        UnsignedVarInt32::wire((v.len() + 1) as u32) + elements_wire::<T>(v)
    }

    /// A header of 0, which would stand for null, leaves no count to read.
    open spec fn parse(s: Seq<u8>) -> Result<(Seq<T::Value>, Seq<u8>), CodecError> {
        match UnsignedVarInt32::parse(s) {
            Ok((n, rest)) => if n == 0 {
                Err(CodecError::ShortRead)
            } else {
                parse_elements::<T>(rest, (n - 1) as nat)
            },
            Err(e) => Err(e),
        }
    }

    /// Nothing where the count is refused; otherwise the count and what the elements have
    /// written.
    open spec fn written_before_error(v: Self::Value) -> Seq<u8> {
        match compact_error(v.len()) {
            Some(_) => Seq::<u8>::empty(),
            None => UnsignedVarInt32::wire((v.len() + 1) as u32) + elements_written::<T>(v),
        }
    }

    open spec fn unread_after_error(s: Seq<u8>) -> Seq<u8> {
        match UnsignedVarInt32::parse(s) {
            Ok((n, rest)) => if n == 0 {
                rest
            } else {
                elements_unread::<T>(rest, (n - 1) as nat)
            },
            Err(_) => s,
        }
    }

    proof fn lemma_round_trip(v: Seq<T::Value>, rest: Seq<u8>) {
        lemma_behind_header_round_trip::<T, UnsignedVarInt32>((v.len() + 1) as u32, v, rest);
    }

    proof fn lemma_truncated(v: Seq<T::Value>, k: int) {
        lemma_behind_header_truncated::<T, UnsignedVarInt32>((v.len() + 1) as u32, v, k);
    }

    fn to_kafka_bytes(self, writer: &mut Vec<u8>) -> (r: Result<(), CodecError>) {
        let elements = self.0;
        let n: usize = elements.len();
        if n >= 0xffff_ffff {
            return Err(CodecError::TooManyBytes(TooManyBytesError { size: n }));
        }
        write_behind_header(UnsignedVarInt32((n + 1) as u32), elements, writer)
    }

    fn from_kafka_bytes(reader: &mut &[u8]) -> (r: Result<CompactArray<T>, CodecError>) {
        let n: u32 = match UnsignedVarInt32::from_kafka_bytes(reader) {
            Ok(n) => n.0,
            Err(e) => {
                return Err(e);
            },
        };
        if n == 0 {
            return Err(CodecError::ShortRead);
        }
        let ghost middle = reader@;
        let count: u64 = (n - 1) as u64;
        let read = read_elements::<T>(reader, count);
        proof {
            lemma_suffix_trans(reader@, middle, old(reader)@);
        }
        match read {
            Ok(elements) => Ok(CompactArray(elements)),
            Err(e) => Err(e),
        }
    }
}

// VARARRAY
impl<T: KafkaEncodable> KafkaEncodable for VarArray<T> {
    type Value = Seq<T::Value>;

    open spec fn value(&self) -> Seq<T::Value> {
        values(self.0@)
    }

    /// Too many elements for the count, or else the error of the first element that cannot
    /// be written.
    open spec fn encode_error(v: Seq<T::Value>) -> Option<CodecError> {
        match compact_error(v.len()) {
            Some(e) => Some(e),
            None => elements_error::<T>(v),
        }
    }

    open spec fn wire(v: Seq<T::Value>) -> Seq<u8> {
        UnsignedVarInt32::wire(v.len() as u32) + elements_wire::<T>(v)
    }

    open spec fn parse(s: Seq<u8>) -> Result<(Seq<T::Value>, Seq<u8>), CodecError> {
        match UnsignedVarInt32::parse(s) {
            Ok((n, rest)) => parse_elements::<T>(rest, n as nat),
            Err(e) => Err(e),
        }
    }

    /// Nothing where the count is refused; otherwise the count and what the elements have
    /// written.
    open spec fn written_before_error(v: Self::Value) -> Seq<u8> {
        match compact_error(v.len()) {
            Some(_) => Seq::<u8>::empty(),
            None => UnsignedVarInt32::wire(v.len() as u32) + elements_written::<T>(v),
        }
    }

    open spec fn unread_after_error(s: Seq<u8>) -> Seq<u8> {
        match UnsignedVarInt32::parse(s) {
            Ok((n, rest)) => elements_unread::<T>(rest, n as nat),
            Err(_) => s,
        }
    }

    proof fn lemma_round_trip(v: Seq<T::Value>, rest: Seq<u8>) {
        lemma_behind_header_round_trip::<T, UnsignedVarInt32>(v.len() as u32, v, rest);
    }

    proof fn lemma_truncated(v: Seq<T::Value>, k: int) {
        lemma_behind_header_truncated::<T, UnsignedVarInt32>(v.len() as u32, v, k);
    }

    fn to_kafka_bytes(self, writer: &mut Vec<u8>) -> (r: Result<(), CodecError>) {
        let elements = self.0;
        let n: usize = elements.len();
        if n >= 0xffff_ffff {
            return Err(CodecError::TooManyBytes(TooManyBytesError { size: n }));
        }
        write_behind_header(UnsignedVarInt32(n as u32), elements, writer)
    }

    fn from_kafka_bytes(reader: &mut &[u8]) -> (r: Result<VarArray<T>, CodecError>) {
        let n: u32 = match UnsignedVarInt32::from_kafka_bytes(reader) {
            Ok(n) => n.0,
            Err(e) => {
                return Err(e);
            },
        };
        let ghost middle = reader@;
        let count: u64 = n as u64;
        let read = read_elements::<T>(reader, count);
        proof {
            lemma_suffix_trans(reader@, middle, old(reader)@);
        }
        match read {
            Ok(elements) => Ok(VarArray(elements)),
            Err(e) => Err(e),
        }
    }
}

// COMPACT_NULLABLE_ARRAY
impl<T: KafkaEncodable> KafkaEncodable for CompactNullableArray<T> {
    type Value = Option<Seq<T::Value>>;

    open spec fn value(&self) -> Option<Seq<T::Value>> {
        match self.0 {
            Some(items) => Some(values(items@)),
            None => None,
        }
    }

    /// Too many elements for the count, or else the error of the first element that cannot
    /// be written.
    open spec fn encode_error(v: Option<Seq<T::Value>>) -> Option<CodecError> {
        match v {
            Some(xs) => match compact_error(xs.len()) {
                Some(e) => Some(e),
                None => elements_error::<T>(xs),
            },
            None => None,
        }
    }

    open spec fn wire(v: Option<Seq<T::Value>>) -> Seq<u8> {
        match v {
            Some(xs) => UnsignedVarInt32::wire((xs.len() + 1) as u32) + elements_wire::<T>(xs),
            None => UnsignedVarInt32::wire(0u32),
        }
    }

    open spec fn parse(s: Seq<u8>) -> Result<(Option<Seq<T::Value>>, Seq<u8>), CodecError> {
        match UnsignedVarInt32::parse(s) {
            Ok((n, rest)) => if n == 0 {
                Ok((None, rest))
            } else {
                present(parse_elements::<T>(rest, (n - 1) as nat))
            },
            Err(e) => Err(e),
        }
    }

    /// Nothing where the count is refused; otherwise the count and what the elements have
    /// written.
    open spec fn written_before_error(v: Self::Value) -> Seq<u8> {
        match v {
            Some(xs) => match compact_error(xs.len()) {
                Some(_) => Seq::<u8>::empty(),
                None => UnsignedVarInt32::wire((xs.len() + 1) as u32) + elements_written::<T>(xs),
            },
            None => Seq::<u8>::empty(),
        }
    }

    open spec fn unread_after_error(s: Seq<u8>) -> Seq<u8> {
        match UnsignedVarInt32::parse(s) {
            Ok((n, rest)) => if n == 0 {
                rest
            } else {
                elements_unread::<T>(rest, (n - 1) as nat)
            },
            Err(_) => s,
        }
    }

    proof fn lemma_round_trip(v: Option<Seq<T::Value>>, rest: Seq<u8>) {
        match v {
            Some(xs) => {
                lemma_behind_header_round_trip::<T, UnsignedVarInt32>(
                    (xs.len() + 1) as u32,
                    xs,
                    rest,
                );
            },
            None => {
                UnsignedVarInt32::lemma_round_trip(0u32, rest);
            },
        }
    }

    proof fn lemma_truncated(v: Option<Seq<T::Value>>, k: int) {
        match v {
            Some(xs) => {
                lemma_behind_header_truncated::<T, UnsignedVarInt32>((xs.len() + 1) as u32, xs, k);
            },
            None => {
                UnsignedVarInt32::lemma_truncated(0u32, k);
            },
        }
    }

    fn to_kafka_bytes(self, writer: &mut Vec<u8>) -> (r: Result<(), CodecError>) {
        match self.0 {
            Some(elements) => {
                let n: usize = elements.len();
                if n >= 0xffff_ffff {
                    return Err(CodecError::TooManyBytes(TooManyBytesError { size: n }));
                }
                write_behind_header(UnsignedVarInt32((n + 1) as u32), elements, writer)
            },
            None => UnsignedVarInt32(0u32).to_kafka_bytes(writer),
        }
    }

    fn from_kafka_bytes(reader: &mut &[u8]) -> (r: Result<CompactNullableArray<T>, CodecError>) {
        let n: u32 = match UnsignedVarInt32::from_kafka_bytes(reader) {
            Ok(n) => n.0,
            Err(e) => {
                return Err(e);
            },
        };
        if n == 0 {
            return Ok(CompactNullableArray(None));
        }
        let ghost middle = reader@;
        let count: u64 = (n - 1) as u64;
        let read = read_elements::<T>(reader, count);
        proof {
            lemma_suffix_trans(reader@, middle, old(reader)@);
        }
        match read {
            Ok(elements) => Ok(CompactNullableArray(Some(elements))),
            Err(e) => Err(e),
        }
    }
}

} // verus!
