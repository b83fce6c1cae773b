//! Tagged fields: the optional fields of a record, written as a sparse list of entries, each
//! a tag, a size and that many bytes of payload.
//!
//! A record of this kind describes its fields through [`TaggedSchema`] and
//! [`TaggedRecord`]; the two functions [`write_tagged_fields`] and [`read_tagged_fields`]
//! are its whole format. Unknown tags are passed over, so that a reader can take what a
//! writer of a later version wrote; a known tag that comes twice is an error.
use vstd::prelude::*;
use crate::arrays::{elements_error, elements_wire, values};
use crate::codec::KafkaEncodable;
use crate::err::CodecError;
use crate::primitives::{UnsignedVarInt32, VarArray};
use crate::seqs::{
    is_suffix_of, lemma_add_assoc, lemma_suffix_trans, lemma_take_in_first,
    lemma_take_in_second,
};
use crate::sized::compact_error;

verus! {

/// One entry of a tagged-field block: the tag, and the payload behind its size.
pub type Entry = (UnsignedVarInt32, VarArray<u8>);

/// The description of a record whose fields are all optional, each known by its tag: the
/// index of its declaration, from 0.
pub trait TaggedSchema: Sized {
    /// The mathematical value that an instance stands for.
    type Fields;

    /// The value of this instance.
    spec fn fields(&self) -> Self::Fields;

    /// The number of fields that the record declares: the tags below it are the known ones.
    spec fn field_count() -> nat;

    /// The record in which every field is absent.
    spec fn blank() -> Self::Fields;

    /// Whether the field `tag` is present in `v`.
    spec fn is_set(v: Self::Fields, tag: nat) -> bool;

    /// The payload of the field `tag` of `v`: the encoding of what the field holds.
    spec fn field_wire(v: Self::Fields, tag: nat) -> Seq<u8>;

    /// `None` where the field `tag` of `v` can be written, otherwise the error of writing it.
    spec fn field_error(v: Self::Fields, tag: nat) -> Option<CodecError>;

    /// `acc` with the field `tag` present and holding what `payload` decodes to as a value
    /// of the field's type, or the error of decoding it.
    spec fn with_field(acc: Self::Fields, tag: nat, payload: Seq<u8>) -> Result<
        Self::Fields,
        CodecError,
    >;

    /// `v` with the fields from tag `n` on made absent.
    spec fn first_fields(v: Self::Fields, n: nat) -> Self::Fields;

    /// With no field kept nothing is present, and with all fields kept the record is whole.
    proof fn lemma_first_fields(v: Self::Fields)
        ensures
            Self::field_count() <= u32::MAX,
            Self::first_fields(v, 0) == Self::blank(),
            Self::first_fields(v, Self::field_count()) == v,
    ;

    /// Keeping one field more either changes nothing, where that field is absent, or is what
    /// decoding the field's own payload into its place gives.
    proof fn lemma_next_field(v: Self::Fields, tag: nat)
        requires
            tag < Self::field_count(),
        ensures
            !Self::is_set(Self::first_fields(v, tag), tag),
            !Self::is_set(v, tag) ==> Self::first_fields(v, tag + 1) == Self::first_fields(
                v,
                tag,
            ),
            Self::is_set(v, tag) && Self::field_error(v, tag) is None ==> Self::with_field(
                Self::first_fields(v, tag),
                tag,
                Self::field_wire(v, tag),
            ) == Ok::<Self::Fields, CodecError>(Self::first_fields(v, tag + 1)),
    ;
}

/// A record whose fields are all optional: what it has to offer so that the functions of
/// this module can write and read it.
pub trait TaggedRecord: TaggedSchema {
    /// The number of fields that the record declares.
    fn known_fields() -> (n: u32)
        ensures
            n == Self::field_count(),
    ;

    /// The record in which every field is absent.
    fn empty() -> (r: Self)
        ensures
            r.fields() == Self::blank(),
    ;

    /// Whether the field `tag` is present.
    fn has_field(&self, tag: u32) -> (b: bool)
        requires
            tag < Self::field_count(),
        ensures
            b == Self::is_set(self.fields(), tag as nat),
    ;

    /// Decodes `payload` as a value of the type of the field `tag`, and stores it.
    fn store_field(self, tag: u32, payload: &[u8]) -> (r: Result<Self, CodecError>)
        requires
            tag < Self::field_count(),
            !Self::is_set(self.fields(), tag as nat),
        ensures
            match Self::with_field(self.fields(), tag as nat, payload@) {
                Ok(v) => r matches Ok(x) && x.fields() == v,
                Err(e) => r matches Err(x) && x == e,
            },
    ;

    /// The payload of every declared field, in the order of the tags: `None` for a field
    /// that is absent.
    fn payloads(self) -> (r: Result<Vec<Option<Vec<u8>>>, CodecError>)
        ensures
            match fields_error::<Self>(self.fields(), Self::field_count()) {
                None => r matches Ok(p) && holds_payloads::<Self>(p@, self.fields()),
                Some(e) => r matches Err(x) && x == e,
            },
    ;
}

/// `p` holds, for each tag, the payload of that field of `v` where it is present.
pub open spec fn holds_payloads<R: TaggedSchema>(p: Seq<Option<Vec<u8>>>, v: R::Fields) -> bool {
    &&& p.len() == R::field_count()
    &&& forall|tag: int|
        0 <= tag < p.len() ==> match #[trigger] p[tag] {
            Some(bytes) => R::is_set(v, tag as nat) && bytes@ == R::field_wire(v, tag as nat),
            None => !R::is_set(v, tag as nat),
        }
}

/// The error of the first field below tag `n` that is present and cannot be written.
pub open spec fn fields_error<R: TaggedSchema>(v: R::Fields, n: nat) -> Option<CodecError>
    decreases n,
{
    if n == 0 {
        None
    } else {
        match fields_error::<R>(v, (n - 1) as nat) {
            Some(e) => Some(e),
            None => if R::is_set(v, (n - 1) as nat) {
                R::field_error(v, (n - 1) as nat)
            } else {
                None
            },
        }
    }
}

/// The error of the first field below tag `n` that is present and whose payload is too long
/// for its size to be written.
pub open spec fn sizes_error<R: TaggedSchema>(v: R::Fields, n: nat) -> Option<CodecError>
    decreases n,
{
    if n == 0 {
        None
    } else {
        match sizes_error::<R>(v, (n - 1) as nat) {
            Some(e) => Some(e),
            None => if R::is_set(v, (n - 1) as nat) {
                compact_error(R::field_wire(v, (n - 1) as nat).len())
            } else {
                None
            },
        }
    }
}

/// `None` where `v` can be written: a field that cannot be written comes first, then a
/// payload that is too long.
pub open spec fn tagged_error<R: TaggedSchema>(v: R::Fields) -> Option<CodecError> {
    match fields_error::<R>(v, R::field_count()) {
        Some(e) => Some(e),
        None => sizes_error::<R>(v, R::field_count()),
    }
}

/// The number of fields below tag `n` that are present.
pub open spec fn present_count<R: TaggedSchema>(v: R::Fields, n: nat) -> nat
    decreases n,
{
    if n == 0 {
        0
    } else {
        present_count::<R>(v, (n - 1) as nat) + if R::is_set(v, (n - 1) as nat) {
            1nat
        } else {
            0nat
        }
    }
}

/// The entry of the field `tag`: empty where the field is absent.
pub open spec fn entry_wire<R: TaggedSchema>(v: R::Fields, tag: nat) -> Seq<u8> {
    if R::is_set(v, tag) {
        Entry::wire((tag as u32, R::field_wire(v, tag)))
    } else {
        Seq::<u8>::empty()
    }
}

/// The entries of the fields below tag `n`, in the order of the tags.
pub open spec fn entries_wire<R: TaggedSchema>(v: R::Fields, n: nat) -> Seq<u8>
    decreases n,
{
    if n == 0 {
        Seq::<u8>::empty()
    } else {
        entries_wire::<R>(v, (n - 1) as nat) + entry_wire::<R>(v, (n - 1) as nat)
    }
}

/// The block of `v`: the number of fields that are present, then their entries.
pub open spec fn tagged_wire<R: TaggedSchema>(v: R::Fields) -> Seq<u8> {
    UnsignedVarInt32::wire(present_count::<R>(v, R::field_count()) as u32) + entries_wire::<R>(
        v,
        R::field_count(),
    )
}

/// What writing the entries of the fields below tag `n` has written when it stops at the
/// first payload that is too long: the entries before it, and the tag of that one.
pub open spec fn entries_written<R: TaggedSchema>(v: R::Fields, n: nat) -> Seq<u8>
    decreases n,
{
    if n == 0 {
        Seq::<u8>::empty()
    } else {
        match sizes_error::<R>(v, (n - 1) as nat) {
            Some(_) => entries_written::<R>(v, (n - 1) as nat),
            None => entries_wire::<R>(v, (n - 1) as nat) + if R::is_set(v, (n - 1) as nat) {
                Entry::written_before_error(((n - 1) as u32, R::field_wire(v, (n - 1) as nat)))
            } else {
                Seq::<u8>::empty()
            },
        }
    }
}

/// What writing the block of `v` has written when it reports an error: nothing where a
/// field cannot be written, since the payloads are made before anything is written, and
/// otherwise the number of fields and the entries before the payload that is too long.
pub open spec fn tagged_written<R: TaggedSchema>(v: R::Fields) -> Seq<u8> {
    match fields_error::<R>(v, R::field_count()) {
        Some(_) => Seq::<u8>::empty(),
        None => UnsignedVarInt32::wire(present_count::<R>(v, R::field_count()) as u32)
            + entries_written::<R>(v, R::field_count()),
    }
}

/// What an entry with `tag` and `payload` makes of `acc`: an unknown tag leaves it as it
/// is, a known tag that is already present is an error, and any other known tag has its
/// payload decoded and stored.
pub open spec fn accept<R: TaggedSchema>(acc: R::Fields, tag: u32, payload: Seq<u8>) -> Result<
    R::Fields,
    CodecError,
> {
    if tag >= R::field_count() {
        Ok(acc)
    } else if R::is_set(acc, tag as nat) {
        Err(CodecError::DuplicateTaggedField { tag })
    } else {
        R::with_field(acc, tag as nat, payload)
    }
}

/// Reads `n` entries into `acc`, one after the other.
pub open spec fn parse_entries<R: TaggedSchema>(s: Seq<u8>, n: nat, acc: R::Fields) -> Result<
    (R::Fields, Seq<u8>),
    CodecError,
>
    decreases n,
{
    if n == 0 {
        Ok((acc, s))
    } else {
        match Entry::parse(s) {
            Ok(((tag, payload), after)) => match accept::<R>(acc, tag, payload) {
                Ok(next) => parse_entries::<R>(after, (n - 1) as nat, next),
                Err(e) => Err(e),
            },
            Err(e) => Err(e),
        }
    }
}

/// What is left of `s` when reading `n` entries into `acc` stops at an error: an entry
/// that cannot be read stops where its own reading stops, and an entry that is refused
/// has been read.
pub open spec fn entries_unread<R: TaggedSchema>(s: Seq<u8>, n: nat, acc: R::Fields) -> Seq<u8>
    decreases n,
{
    if n == 0 {
        s
    } else {
        match Entry::parse(s) {
            Ok(((tag, payload), after)) => match accept::<R>(acc, tag, payload) {
                Ok(next) => entries_unread::<R>(after, (n - 1) as nat, next),
                Err(_) => after,
            },
            Err(_) => Entry::unread_after_error(s),
        }
    }
}

/// What is left of `s` when reading a block from it reports an error.
pub open spec fn tagged_unread<R: TaggedSchema>(s: Seq<u8>) -> Seq<u8> {
    match UnsignedVarInt32::parse(s) {
        Ok((n, after)) => entries_unread::<R>(after, n as nat, R::blank()),
        Err(_) => s,
    }
}

/// Reads a block: the number of entries, then the entries into a record that starts with
/// every field absent. Fields that no entry names stay absent.
pub open spec fn tagged_parse<R: TaggedSchema>(s: Seq<u8>) -> Result<
    (R::Fields, Seq<u8>),
    CodecError,
> {
    match UnsignedVarInt32::parse(s) {
        Ok((n, after)) => parse_entries::<R>(after, n as nat, R::blank()),
        Err(e) => Err(e),
    }
}

/// Bytes are their own encoding as elements.
pub proof fn lemma_byte_elements(bytes: Seq<u8>)
    ensures
        elements_wire::<u8>(bytes) == bytes,
        elements_error::<u8>(bytes) is None,
    decreases bytes.len(),
{
    if bytes.len() > 0 {
        lemma_byte_elements(bytes.skip(1));
        reveal_with_fuel(crate::fixed::be_bytes, 2);
        assert(u8::wire(bytes[0]) =~= seq![bytes[0]]);
        assert(seq![bytes[0]] + bytes.skip(1) =~= bytes);
    } else {
        assert(elements_wire::<u8>(bytes) =~= bytes);
    }
}

/// The bytes that a vector of bytes holds are its values.
pub proof fn lemma_byte_values(bytes: Seq<u8>)
    ensures
        values::<u8>(bytes) == bytes,
{
    assert(values::<u8>(bytes) =~= bytes);
}

proof fn lemma_counts_bounded<R: TaggedSchema>(v: R::Fields, n: nat)
    ensures
        present_count::<R>(v, n) <= n,
    decreases n,
{
    if n > 0 {
        lemma_counts_bounded::<R>(v, (n - 1) as nat);
    }
}

/// An error among the fields below `n` is the error among all fields.
proof fn lemma_errors_prefix<R: TaggedSchema>(v: R::Fields, n: nat, m: nat)
    requires
        n <= m,
    ensures
        fields_error::<R>(v, n) is Some ==> fields_error::<R>(v, m) == fields_error::<R>(v, n),
        sizes_error::<R>(v, n) is Some ==> sizes_error::<R>(v, m) == sizes_error::<R>(v, n),
        fields_error::<R>(v, m) is None ==> fields_error::<R>(v, n) is None,
        sizes_error::<R>(v, m) is None ==> sizes_error::<R>(v, n) is None,
    decreases m - n,
{
    if n < m {
        lemma_errors_prefix::<R>(v, n, (m - 1) as nat);
    }
}

/// Where the field `tag` is the first whose payload is too long, the entries before it
/// are written whole, whatever fields follow.
proof fn lemma_entries_written<R: TaggedSchema>(v: R::Fields, tag: nat, n: nat)
    requires
        tag < n,
        sizes_error::<R>(v, tag) is None,
        sizes_error::<R>(v, tag + 1) is Some,
    ensures
        R::is_set(v, tag),
        entries_written::<R>(v, n) == entries_wire::<R>(v, tag) + Entry::written_before_error(
            (tag as u32, R::field_wire(v, tag)),
        ),
    decreases n,
{
    if n > tag + 1 {
        lemma_errors_prefix::<R>(v, tag + 1, (n - 1) as nat);
        lemma_entries_written::<R>(v, tag, (n - 1) as nat);
    }
}

/// The entry of a field that is present and can be written is read back as its tag and
/// its payload.
proof fn lemma_entry_round_trip<R: TaggedSchema>(v: R::Fields, tag: nat, rest: Seq<u8>)
    requires
        tag < R::field_count(),
        R::is_set(v, tag),
        compact_error(R::field_wire(v, tag).len()) is None,
    ensures
        Entry::parse(entry_wire::<R>(v, tag) + rest) == Ok::<((u32, Seq<u8>), Seq<u8>), CodecError>(
            ((tag as u32, R::field_wire(v, tag)), rest),
        ),
        Entry::encode_error((tag as u32, R::field_wire(v, tag))) is None,
{
    R::lemma_first_fields(v);
    lemma_byte_elements(R::field_wire(v, tag));
    Entry::lemma_round_trip((tag as u32, R::field_wire(v, tag)), rest);
}

/// Reading the entries of the fields below `n`, and `more` entries behind them, is reading
/// those `more` entries into the record that has the fields below `n`.
proof fn lemma_entries_read<R: TaggedSchema>(v: R::Fields, n: nat, rest: Seq<u8>, more: nat)
    requires
        n <= R::field_count(),
        tagged_error::<R>(v) is None,
    ensures
        parse_entries::<R>(
            entries_wire::<R>(v, n) + rest,
            present_count::<R>(v, n) + more,
            R::blank(),
        ) == parse_entries::<R>(rest, more, R::first_fields(v, n)),
    decreases n,
{
    R::lemma_first_fields(v);
    if n == 0 {
        assert(entries_wire::<R>(v, 0) + rest =~= rest);
    } else {
        let tag = (n - 1) as nat;
        let entry = entry_wire::<R>(v, tag);
        R::lemma_next_field(v, tag);
        lemma_errors_prefix::<R>(v, n, R::field_count());
        lemma_add_assoc(entries_wire::<R>(v, tag), entry, rest);
        if R::is_set(v, tag) {
            lemma_entries_read::<R>(v, tag, entry + rest, more + 1);
            lemma_entry_round_trip::<R>(v, tag, rest);
            assert(present_count::<R>(v, tag) + (more + 1) == present_count::<R>(v, n) + more);
        } else {
            lemma_entries_read::<R>(v, tag, entry + rest, more);
            assert(entry + rest =~= rest);
        }
    }
}

/// Reading the entries of the fields below `n` after bytes were lost at their end is a
/// short read, however many entries are expected.
proof fn lemma_entries_truncated<R: TaggedSchema>(v: R::Fields, n: nat, k: int, more: nat)
    requires
        n <= R::field_count(),
        tagged_error::<R>(v) is None,
        0 <= k < entries_wire::<R>(v, n).len(),
    ensures
        parse_entries::<R>(
            entries_wire::<R>(v, n).take(k),
            present_count::<R>(v, n) + more,
            R::blank(),
        ) == Err::<(R::Fields, Seq<u8>), CodecError>(CodecError::ShortRead),
    decreases n,
{
    R::lemma_first_fields(v);
    if n > 0 {
        let tag = (n - 1) as nat;
        let before = entries_wire::<R>(v, tag);
        let entry = entry_wire::<R>(v, tag);
        R::lemma_next_field(v, tag);
        lemma_errors_prefix::<R>(v, n, R::field_count());
        if k < before.len() {
            lemma_take_in_first(before, entry, k);
            if R::is_set(v, tag) {
                lemma_entries_truncated::<R>(v, tag, k, more + 1);
                assert(present_count::<R>(v, tag) + (more + 1) == present_count::<R>(v, n)
                    + more);
            } else {
                lemma_entries_truncated::<R>(v, tag, k, more);
            }
        } else {
            let cut = k - before.len();
            lemma_take_in_second(before, entry, k);
            lemma_entries_read::<R>(v, tag, entry.take(cut), more + 1);
            lemma_byte_elements(R::field_wire(v, tag));
            Entry::lemma_truncated((tag as u32, R::field_wire(v, tag)), cut);
            assert(present_count::<R>(v, tag) + (more + 1) == present_count::<R>(v, n) + more);
        }
    }
}

/// Reading back the block of a record gives the record, and leaves whatever followed the
/// block.
pub proof fn lemma_tagged_round_trip<R: TaggedSchema>(v: R::Fields, rest: Seq<u8>)
    requires
        tagged_error::<R>(v) is None,
    ensures
        tagged_parse::<R>(tagged_wire::<R>(v) + rest) == Ok::<(R::Fields, Seq<u8>), CodecError>(
            (v, rest),
        ),
{
    let n = R::field_count();
    let count = present_count::<R>(v, n);
    R::lemma_first_fields(v);
    lemma_counts_bounded::<R>(v, n);
    lemma_add_assoc(UnsignedVarInt32::wire(count as u32), entries_wire::<R>(v, n), rest);
    UnsignedVarInt32::lemma_round_trip(count as u32, entries_wire::<R>(v, n) + rest);
    lemma_entries_read::<R>(v, n, rest, 0);
}

/// Reading the block of a record after it lost one or more bytes at its end reports a
/// short read.
pub proof fn lemma_tagged_truncated<R: TaggedSchema>(v: R::Fields, k: int)
    requires
        tagged_error::<R>(v) is None,
    ensures
        0 <= k < tagged_wire::<R>(v).len() ==> tagged_parse::<R>(tagged_wire::<R>(v).take(k))
            == Err::<(R::Fields, Seq<u8>), CodecError>(CodecError::ShortRead),
{
    let n = R::field_count();
    let count = present_count::<R>(v, n);
    let head = UnsignedVarInt32::wire(count as u32);
    let body = entries_wire::<R>(v, n);
    R::lemma_first_fields(v);
    lemma_counts_bounded::<R>(v, n);
    if 0 <= k < head.len() {
        lemma_take_in_first(head, body, k);
        UnsignedVarInt32::lemma_truncated(count as u32, k);
    } else if head.len() <= k < head.len() + body.len() {
        lemma_take_in_second(head, body, k);
        UnsignedVarInt32::lemma_round_trip(count as u32, body.take(k - head.len()));
        lemma_entries_truncated::<R>(v, n, k - head.len(), 0);
    }
}

/// An entry with an unknown tag is passed over: exactly its payload is taken, the record
/// stays as it is, and the entries behind it are read as if it had not been there.
pub proof fn lemma_unknown_tag_skipped<R: TaggedSchema>(
    tag: u32,
    payload: Seq<u8>,
    rest: Seq<u8>,
    more: nat,
    acc: R::Fields,
)
    requires
        tag >= R::field_count(),
        payload.len() < u32::MAX,
    ensures
        parse_entries::<R>(Entry::wire((tag, payload)) + rest, more + 1, acc) == parse_entries::<
            R,
        >(rest, more, acc),
{
    lemma_byte_elements(payload);
    Entry::lemma_round_trip((tag, payload), rest);
}

/// An entry with a known tag whose field is already present is an error, whatever its
/// payload and whatever follows: the value that is present is never replaced.
pub proof fn lemma_duplicate_tag_rejected<R: TaggedSchema>(
    tag: u32,
    payload: Seq<u8>,
    rest: Seq<u8>,
    more: nat,
    acc: R::Fields,
)
    requires
        tag < R::field_count(),
        R::is_set(acc, tag as nat),
        payload.len() < u32::MAX,
    ensures
        parse_entries::<R>(Entry::wire((tag, payload)) + rest, more + 1, acc) == Err::<
            (R::Fields, Seq<u8>),
            CodecError,
        >(CodecError::DuplicateTaggedField { tag }),
{
    lemma_byte_elements(payload);
    Entry::lemma_round_trip((tag, payload), rest);
}

/// The number of fields of which `payloads` holds a payload.
fn count_present<R: TaggedSchema>(
    payloads: &Vec<Option<Vec<u8>>>,
    Ghost(v): Ghost<R::Fields>,
) -> (count: u32)
    requires
        holds_payloads::<R>(payloads@, v),
        R::field_count() <= u32::MAX,
    ensures
        count == present_count::<R>(v, R::field_count()),
{
    let mut count: u32 = 0;
    let mut i: usize = 0;
    while i < payloads.len()
        invariant
            i <= payloads@.len(),
            holds_payloads::<R>(payloads@, v),
            R::field_count() <= u32::MAX,
            count == present_count::<R>(v, i as nat),
            count <= i,
        decreases payloads@.len() - i,
    {
        if payloads[i].is_some() {
            count = count + 1;
        }
        i = i + 1;
    }
    count
}

/// Writes the block of `record`: the number of fields that are present, and for each of
/// them, in the order of the tags, its tag, the size of its payload and the payload.
pub fn write_tagged_fields<R: TaggedRecord>(record: R, writer: &mut Vec<u8>) -> (r: Result<
    (),
    CodecError,
>)
    ensures
        match tagged_error::<R>(record.fields()) {
            None => r is Ok && final(writer)@ == old(writer)@ + tagged_wire::<R>(record.fields()),
            Some(e) => r == Err::<(), CodecError>(e) && final(writer)@ == old(writer)@
                + tagged_written::<R>(record.fields()),
        },
{
    let ghost v = record.fields();
    let ghost n = R::field_count();
    proof {
        R::lemma_first_fields(v);
    }
    let payloads = match record.payloads() {
        Ok(p) => p,
        Err(e) => {
            return Err(e);
        },
    };
    let count: u32 = count_present::<R>(&payloads, Ghost(v));
    let _ = UnsignedVarInt32(count).to_kafka_bytes(writer);
    let ghost head = UnsignedVarInt32::wire(count);
    let ghost start = writer@;
    proof {
        assert(writer@ =~= start + entries_wire::<R>(v, 0));
    }
    let mut tag: u32 = 0;
    for payload in it: payloads
        invariant
            it.seq() == payloads@,
            holds_payloads::<R>(payloads@, v),
            n == R::field_count(),
            n <= u32::MAX,
            tag == it.index(),
            fields_error::<R>(v, n) is None,
            sizes_error::<R>(v, tag as nat) is None,
            v == record.fields(),
            start == old(writer)@ + head,
            head == UnsignedVarInt32::wire(present_count::<R>(v, n) as u32),
            writer@ == start + entries_wire::<R>(v, tag as nat),
    {
        let ghost before = writer@;
        let ghost entry = entry_wire::<R>(v, tag as nat);
        proof {
            lemma_add_assoc(start, entries_wire::<R>(v, tag as nat), entry);
            assert(payloads@[tag as int] == payload);
        }
        match payload {
            Some(bytes) => {
                proof {
                    lemma_byte_values(bytes@);
                    lemma_byte_elements(bytes@);
                }
                match (UnsignedVarInt32(tag), VarArray(bytes)).to_kafka_bytes(writer) {
                    Ok(()) => {},
                    Err(e) => {
                        proof {
                            let stopped = Entry::written_before_error((tag, bytes@));
                            lemma_errors_prefix::<R>(v, (tag + 1) as nat, n);
                            lemma_entries_written::<R>(v, tag as nat, n);
                            lemma_add_assoc(start, entries_wire::<R>(v, tag as nat), stopped);
                            lemma_add_assoc(old(writer)@, head, entries_written::<R>(v, n));
                        }
                        return Err(e);
                    },
                }
            },
            None => {
                assert(writer@ =~= before + entry);
            },
        }
        tag = tag + 1;
    }
    proof {
        lemma_add_assoc(old(writer)@, head, entries_wire::<R>(v, n));
    }
    Ok(())
}

/// Reads a block into a record that starts with every field absent: the number of entries,
/// then for each entry its tag, its size and its payload. The payload of a known tag is
/// decoded into its field, once; the payload of an unknown tag is dropped.
pub fn read_tagged_fields<R: TaggedRecord>(reader: &mut &[u8]) -> (r: Result<R, CodecError>)
    ensures
        is_suffix_of(final(reader)@, old(reader)@),
        match tagged_parse::<R>(old(reader)@) {
            Ok((v, rest)) => r matches Ok(x) && x.fields() == v && final(reader)@ == rest,
            Err(e) => r matches Err(x) && x == e && final(reader)@ == tagged_unread::<R>(
                old(reader)@,
            ),
        },
{
    let count: u32 = match UnsignedVarInt32::from_kafka_bytes(reader) {
        Ok(n) => n.0,
        Err(e) => {
            return Err(e);
        },
    };
    let ghost start = reader@;
    let known: u32 = R::known_fields();
    let mut record = R::empty();
    let mut i: u32 = 0;
    while i < count
        invariant
            i <= count,
            known == R::field_count(),
            is_suffix_of(reader@, old(reader)@),
            tagged_parse::<R>(old(reader)@) == parse_entries::<R>(
                start,
                count as nat,
                R::blank(),
            ),
            tagged_unread::<R>(old(reader)@) == entries_unread::<R>(
                reader@,
                (count - i) as nat,
                record.fields(),
            ),
            parse_entries::<R>(start, count as nat, R::blank()) == parse_entries::<R>(
                reader@,
                (count - i) as nat,
                record.fields(),
            ),
        decreases count - i,
    {
        let ghost before = reader@;
        let (tag, payload) = match Entry::from_kafka_bytes(reader) {
            Ok((tag, payload)) => (tag.0, payload.0),
            Err(e) => {
                proof {
                    lemma_suffix_trans(reader@, before, old(reader)@);
                }
                return Err(e);
            },
        };
        proof {
            lemma_suffix_trans(reader@, before, old(reader)@);
            lemma_byte_values(payload@);
        }
        if tag < known {
            if record.has_field(tag) {
                return Err(CodecError::DuplicateTaggedField { tag });
            }
            record = match record.store_field(tag, payload.as_slice()) {
                Ok(next) => next,
                Err(e) => {
                    return Err(e);
                },
            };
        }
        i = i + 1;
    }
    Ok(record)
}

/// What `payload` decodes to as a value of the type `T`. Bytes of the payload that the
/// value does not need are dropped with it.
pub open spec fn payload_value<T: KafkaEncodable>(payload: Seq<u8>) -> Result<
    T::Value,
    CodecError,
> {
    match T::parse(payload) {
        Ok((x, _)) => Ok(x),
        Err(e) => Err(e),
    }
}

/// The encoding of a value is a payload that decodes to the value.
pub proof fn lemma_payload_round_trip<T: KafkaEncodable>(x: T::Value)
    requires
        T::encode_error(x) is None,
    ensures
        payload_value::<T>(T::wire(x)) == Ok::<T::Value, CodecError>(x),
{
    T::lemma_round_trip(x, Seq::<u8>::empty());
    assert(T::wire(x) + Seq::<u8>::empty() =~= T::wire(x));
}

/// The payload of a field: the encoding of what it holds, in a buffer of its own.
pub fn encode_payload<T: KafkaEncodable>(field: Option<T>) -> (r: Result<
    Option<Vec<u8>>,
    CodecError,
>)
    ensures
        match field {
            Some(x) => match T::encode_error(x.value()) {
                None => r matches Ok(Some(bytes)) && bytes@ == T::wire(x.value()),
                Some(e) => r matches Err(x) && x == e,
            },
            None => r matches Ok(None),
        },
{
    match field {
        Some(x) => {
            let mut buffer: Vec<u8> = Vec::new();
            match x.to_kafka_bytes(&mut buffer) {
                Ok(()) => {
                    assert(Seq::<u8>::empty() + T::wire(x.value()) =~= T::wire(x.value()));
                    Ok(Some(buffer))
                },
                Err(e) => Err(e),
            }
        },
        None => Ok(None),
    }
}

/// Decodes `payload` as a value of the type `T`.
pub fn decode_payload<T: KafkaEncodable>(payload: &[u8]) -> (r: Result<T, CodecError>)
    ensures
        match payload_value::<T>(payload@) {
            Ok(v) => r matches Ok(x) && x.value() == v,
            Err(e) => r matches Err(x) && x == e,
        },
{
    let mut cursor: &[u8] = payload;
    T::from_kafka_bytes(&mut cursor)
}

} // verus!
