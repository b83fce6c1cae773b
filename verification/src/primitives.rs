//! The wire types that are "the same" value under another encoding: varints, the four
//! flavors of strings and of byte buffers, and the five flavors of arrays.
use vstd::prelude::*;

verus! {

/// VARINT: a 32-bit signed integer, zigzag encoded as a varint.
#[derive(Clone, Copy, Debug, Eq, PartialEq)]
pub struct VarI32(pub i32);

/// VARLONG: a 64-bit signed integer, zigzag encoded as a varint.
#[derive(Clone, Copy, Debug, Eq, PartialEq)]
pub struct VarI64(pub i64);

/// UNSIGNED_VARINT: a 32-bit unsigned integer, encoded as a varint.
#[derive(Clone, Copy, Debug, Eq, PartialEq)]
pub struct UnsignedVarInt32(pub u32);

/// COMPACT_STRING: text behind an unsigned varint that holds its length plus one.
#[derive(Clone, Debug, Eq, PartialEq)]
pub struct CompactString(pub String);

/// NULLABLE_STRING: text behind a 16-bit length, where a length of -1 stands for null.
#[derive(Clone, Debug, Eq, PartialEq)]
pub struct NullableString(pub Option<String>);

/// COMPACT_NULLABLE_STRING: a compact string whose header may be 0, which stands for null.
#[derive(Clone, Debug, Eq, PartialEq)]
pub struct CompactNullableString(pub Option<String>);

/// COMPACT_BYTES: bytes behind an unsigned varint that holds their number plus one.
#[derive(Clone, Debug, Eq, PartialEq)]
pub struct CompactBytes(pub Vec<u8>);

/// NULLABLE_BYTES: bytes behind a 32-bit length, where a length of -1 stands for null.
#[derive(Clone, Debug, Eq, PartialEq)]
pub struct NullableBytes(pub Option<Vec<u8>>);

/// COMPACT_NULLABLE_BYTES: compact bytes whose header may be 0, which stands for null.
#[derive(Clone, Debug, Eq, PartialEq)]
pub struct CompactNullableBytes(pub Option<Vec<u8>>);

/// ARRAY: elements behind a 32-bit count.
#[derive(Clone, Debug, Eq, PartialEq)]
pub struct Array<T>(pub Vec<T>);

/// NULLABLE_ARRAY: elements behind a 32-bit count, where a count of -1 stands for null.
#[derive(Clone, Debug, Eq, PartialEq)]
pub struct NullableArray<T>(pub Option<Vec<T>>);

/// COMPACT_ARRAY: elements behind an unsigned varint that holds their number plus one.
#[derive(Clone, Debug, Eq, PartialEq)]
pub struct CompactArray<T>(pub Vec<T>);

/// VARARRAY: elements behind an unsigned varint that holds their number.
#[derive(Clone, Debug, Eq, PartialEq)]
pub struct VarArray<T>(pub Vec<T>);

/// COMPACT_NULLABLE_ARRAY: a compact array whose header may be 0, which stands for null.
#[derive(Clone, Debug, Eq, PartialEq)]
pub struct CompactNullableArray<T>(pub Option<Vec<T>>);

impl<T> Array<T> {
    pub fn new(v: Vec<T>) -> (r: Self)
        ensures
            r.0 == v,
    {
        Array(v)
    }
}

impl<T> NullableArray<T> {
    pub fn new(v: Option<Vec<T>>) -> (r: Self)
        ensures
            r.0 == v,
    {
        NullableArray(v)
    }
}

impl<T> CompactArray<T> {
    pub fn new(v: Vec<T>) -> (r: Self)
        ensures
            r.0 == v,
    {
        CompactArray(v)
    }
}

impl<T> VarArray<T> {
    pub fn new(v: Vec<T>) -> (r: Self)
        ensures
            r.0 == v,
    {
        VarArray(v)
    }
}

impl<T> CompactNullableArray<T> {
    pub fn new(v: Option<Vec<T>>) -> (r: Self)
        ensures
            r.0 == v,
    {
        CompactNullableArray(v)
    }
}

impl std::ops::Deref for VarI32 {
    type Target = i32;

    fn deref(&self) -> (r: &i32)
        ensures
            *r == self.0,
    {
        &self.0
    }
}

impl std::ops::Deref for VarI64 {
    type Target = i64;

    fn deref(&self) -> (r: &i64)
        ensures
            *r == self.0,
    {
        &self.0
    }
}

impl std::ops::Deref for UnsignedVarInt32 {
    type Target = u32;

    fn deref(&self) -> (r: &u32)
        ensures
            *r == self.0,
    {
        &self.0
    }
}

impl std::ops::Deref for CompactString {
    type Target = String;

    fn deref(&self) -> (r: &String)
        ensures
            *r == self.0,
    {
        &self.0
    }
}

impl std::ops::Deref for NullableString {
    type Target = Option<String>;

    fn deref(&self) -> (r: &Option<String>)
        ensures
            *r == self.0,
    {
        &self.0
    }
}

impl std::ops::Deref for CompactNullableString {
    type Target = Option<String>;

    fn deref(&self) -> (r: &Option<String>)
        ensures
            *r == self.0,
    {
        &self.0
    }
}

impl std::ops::Deref for CompactBytes {
    type Target = Vec<u8>;

    fn deref(&self) -> (r: &Vec<u8>)
        ensures
            *r == self.0,
    {
        &self.0
    }
}

impl std::ops::Deref for NullableBytes {
    type Target = Option<Vec<u8>>;

    fn deref(&self) -> (r: &Option<Vec<u8>>)
        ensures
            *r == self.0,
    {
        &self.0
    }
}

impl std::ops::Deref for CompactNullableBytes {
    type Target = Option<Vec<u8>>;

    fn deref(&self) -> (r: &Option<Vec<u8>>)
        ensures
            *r == self.0,
    {
        &self.0
    }
}

impl<T> std::ops::Deref for Array<T> {
    type Target = Vec<T>;

    fn deref(&self) -> (r: &Vec<T>)
        ensures
            *r == self.0,
    {
        &self.0
    }
}

impl<T> std::ops::Deref for NullableArray<T> {
    type Target = Option<Vec<T>>;

    fn deref(&self) -> (r: &Option<Vec<T>>)
        ensures
            *r == self.0,
    {
        &self.0
    }
}

impl<T> std::ops::Deref for CompactArray<T> {
    type Target = Vec<T>;

    fn deref(&self) -> (r: &Vec<T>)
        ensures
            *r == self.0,
    {
        &self.0
    }
}

impl<T> std::ops::Deref for VarArray<T> {
    type Target = Vec<T>;

    fn deref(&self) -> (r: &Vec<T>)
        ensures
            *r == self.0,
    {
        &self.0
    }
}

impl<T> std::ops::Deref for CompactNullableArray<T> {
    type Target = Option<Vec<T>>;

    fn deref(&self) -> (r: &Option<Vec<T>>)
        ensures
            *r == self.0,
    {
        &self.0
    }
}

impl std::ops::DerefMut for CompactNullableString {
    fn deref_mut(&mut self) -> (r: &mut Option<String>)
        ensures
            *r == old(self).0,
            final(self).0 == *final(r),
    {
        &mut self.0
    }
}

impl std::ops::DerefMut for CompactNullableBytes {
    fn deref_mut(&mut self) -> (r: &mut Option<Vec<u8>>)
        ensures
            *r == old(self).0,
            final(self).0 == *final(r),
    {
        &mut self.0
    }
}

} // verus!
