//! Collection wrappers whose stored form carries no length prefix: the
//! length of a trailing field is inferred from the bytes that remain.

use vstd::prelude::*;

verus! {

/// A byte string stored without a length prefix, suitable only for the
/// last field of a record.
#[derive(Clone, Debug)]
pub struct TrailingStr(Vec<u8>);

impl TrailingStr {
    /// Wrap the bytes of a string.
    pub fn from_bytes(bytes: Vec<u8>) -> (r: Self)
        ensures
            r.spec_bytes() == bytes@,
    {
        TrailingStr(bytes)
    }

    /// The stored bytes.
    pub closed spec fn spec_bytes(&self) -> Seq<u8> {
        self.0@
    }

    /// The stored bytes.
    pub fn as_bytes(&self) -> (r: &[u8])
        ensures
            r@ == self.spec_bytes(),
    {
        self.0.as_slice()
    }

    /// The number of stored bytes: a trailing field's serialized form
    /// is exactly its contents.
    pub fn len(&self) -> (r: usize)
        ensures
            r == self.spec_bytes().len(),
    {
        self.0.len()
    }
}

/// A `String` stored without a length prefix, suitable only for the
/// last field of a record.
#[derive(Clone, Debug)]
pub struct TrailingString(String);

impl TrailingString {
    /// Wrap a string.
    pub fn from_string(value: String) -> (r: Self)
        ensures
            r.spec_str() == value@,
    {
        TrailingString(value)
    }

    /// The stored characters.
    pub closed spec fn spec_str(&self) -> Seq<char> {
        self.0@
    }

    /// The stored string.
    pub fn as_str(&self) -> (r: &str)
        ensures
            r@ == self.spec_str(),
    {
        self.0.as_str()
    }

    /// The number of stored characters.
    pub fn len(&self) -> (r: usize)
        ensures
            r == self.spec_str().len(),
    {
        self.0.as_str().unicode_len()
    }
}

/// A `Vec` stored without a length prefix, suitable only for the last
/// field of a record.
#[derive(Clone, Debug)]
pub struct TrailingVec<T>(Vec<T>);

impl<T> TrailingVec<T> {
    /// Wrap a vector.
    pub fn from_vec(value: Vec<T>) -> (r: Self)
        ensures
            r.spec_items() == value@,
    {
        TrailingVec(value)
    }

    /// The stored items.
    pub closed spec fn spec_items(&self) -> Seq<T> {
        self.0@
    }

    /// The stored items.
    pub fn as_slice(&self) -> (r: &[T])
        ensures
            r@ == self.spec_items(),
    {
        self.0.as_slice()
    }

    /// The number of stored items.
    pub fn len(&self) -> (r: usize)
        ensures
            r == self.spec_items().len(),
    {
        self.0.len()
    }
}

} // verus!
