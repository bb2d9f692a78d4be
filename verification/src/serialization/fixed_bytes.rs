use vstd::prelude::*;
use vstd::bytes::*;
use vstd::slice::slice_subrange;
use crate::error::ArconStateError;

verus! {

/// A type with an encoding of a fixed number of bytes, the same for every value.
pub trait FixedBytes: Sized {
    /// Number of bytes of every encoding.
    spec fn width() -> nat;

    /// The encoding of a value.
    spec fn fixed(&self) -> Seq<u8>;

    /// The value that `width()` bytes stand for.
    spec fn unfixed(bytes: Seq<u8>) -> Self;

    /// Encodings have the fixed width and lose nothing.
    proof fn fixed_is_lossless(&self)
        ensures
            self.fixed().len() == Self::width(),
            Self::unfixed(self.fixed()) == *self,
    ;

    fn size() -> (n: usize)
        ensures
            n == Self::width(),
    ;

    fn to_fixed(&self) -> (bytes: Vec<u8>)
        ensures
            bytes@ == self.fixed(),
    ;

    fn from_fixed(bytes: &[u8]) -> (value: Self)
        requires
            bytes@.len() == Self::width(),
        ensures
            value == Self::unfixed(bytes@),
    ;
}

impl FixedBytes for () {
    open spec fn width() -> nat {
        0
    }

    open spec fn fixed(&self) -> Seq<u8> {
        Seq::empty()
    }

    open spec fn unfixed(bytes: Seq<u8>) -> Self {
        ()
    }

    proof fn fixed_is_lossless(&self) {
    }

    fn size() -> (n: usize) {
        0
    }

    fn to_fixed(&self) -> (bytes: Vec<u8>) {
        Vec::new()
    }

    fn from_fixed(bytes: &[u8]) -> (value: Self) {
        ()
    }
}

impl FixedBytes for u8 {
    open spec fn width() -> nat {
        1
    }

    open spec fn fixed(&self) -> Seq<u8> {
        seq![*self]
    }

    open spec fn unfixed(bytes: Seq<u8>) -> Self {
        bytes[0]
    }

    proof fn fixed_is_lossless(&self) {
    }

    fn size() -> (n: usize) {
        1
    }

    fn to_fixed(&self) -> (bytes: Vec<u8>) {
        let mut bytes = Vec::new();
        bytes.push(*self);
        bytes
    }

    fn from_fixed(bytes: &[u8]) -> (value: Self) {
        bytes[0]
    }
}

impl FixedBytes for u16 {
    open spec fn width() -> nat {
        2
    }

    open spec fn fixed(&self) -> Seq<u8> {
        spec_u16_to_le_bytes(*self)
    }

    open spec fn unfixed(bytes: Seq<u8>) -> Self {
        spec_u16_from_le_bytes(bytes)
    }

    proof fn fixed_is_lossless(&self) {
        lemma_auto_spec_u16_to_from_le_bytes();
        assert(spec_u16_to_le_bytes(*self).len() == 2);
    }

    fn size() -> (n: usize) {
        2
    }

    fn to_fixed(&self) -> (bytes: Vec<u8>) {
        u16_to_le_bytes(*self)
    }

    fn from_fixed(bytes: &[u8]) -> (value: Self) {
        u16_from_le_bytes(bytes)
    }
}

impl FixedBytes for u32 {
    open spec fn width() -> nat {
        4
    }

    open spec fn fixed(&self) -> Seq<u8> {
        spec_u32_to_le_bytes(*self)
    }

    open spec fn unfixed(bytes: Seq<u8>) -> Self {
        spec_u32_from_le_bytes(bytes)
    }

    proof fn fixed_is_lossless(&self) {
        lemma_auto_spec_u32_to_from_le_bytes();
        assert(spec_u32_to_le_bytes(*self).len() == 4);
    }

    fn size() -> (n: usize) {
        4
    }

    fn to_fixed(&self) -> (bytes: Vec<u8>) {
        u32_to_le_bytes(*self)
    }

    fn from_fixed(bytes: &[u8]) -> (value: Self) {
        u32_from_le_bytes(bytes)
    }
}

impl FixedBytes for u64 {
    open spec fn width() -> nat {
        8
    }

    open spec fn fixed(&self) -> Seq<u8> {
        spec_u64_to_le_bytes(*self)
    }

    open spec fn unfixed(bytes: Seq<u8>) -> Self {
        spec_u64_from_le_bytes(bytes)
    }

    proof fn fixed_is_lossless(&self) {
        lemma_auto_spec_u64_to_from_le_bytes();
    }

    fn size() -> (n: usize) {
        8
    }

    fn to_fixed(&self) -> (bytes: Vec<u8>) {
        u64_to_le_bytes(*self)
    }

    fn from_fixed(bytes: &[u8]) -> (value: Self) {
        u64_from_le_bytes(bytes)
    }
}

/// Writes the encoding of `payload` over the first bytes of `dest`, which keeps
/// its length. A buffer shorter than the encoding is left as it is.
pub fn serialize<T: FixedBytes>(payload: &T, dest: &mut Vec<u8>) -> (r: Result<(), ArconStateError>)
    ensures
        match r {
            Ok(()) => {
                &&& T::width() <= old(dest)@.len()
                &&& final(dest)@ == payload.fixed() + old(dest)@.skip(T::width() as int)
            },
            Err(e) => {
                &&& old(dest)@.len() < T::width()
                &&& final(dest)@ == old(dest)@
                &&& e == (ArconStateError::FixedBytesSerializationError {
                    dest_len: old(dest).len(),
                    needed: T::width() as usize,
                })
            },
        },
{
    let needed = T::size();
    let dest_len = dest.len();
    if dest_len < needed {
        return Err(ArconStateError::FixedBytesSerializationError { dest_len, needed });
    }
    let bytes = payload.to_fixed();
    proof {
        payload.fixed_is_lossless();
    }
    let mut i: usize = 0;
    while i < needed
        invariant
            i <= needed,
            needed == T::width(),
            bytes@ == payload.fixed(),
            bytes@.len() == needed,
            dest@.len() == old(dest)@.len(),
            needed <= dest@.len(),
            dest@ == bytes@.take(i as int) + old(dest)@.skip(i as int),
        decreases needed - i,
    {
        dest.set(i, bytes[i]);
        i = i + 1;
    }
    assert(bytes@.take(needed as int) == bytes@);
    Ok(())
}

/// Reads a value from the first bytes of `source`.
pub fn deserialize<T: FixedBytes>(source: &[u8]) -> (r: Result<T, ArconStateError>)
    ensures
        match r {
            Ok(value) => {
                &&& T::width() <= source@.len()
                &&& value == T::unfixed(source@.take(T::width() as int))
            },
            Err(e) => {
                &&& source@.len() < T::width()
                &&& e == (ArconStateError::FixedBytesDeserializationError {
                    source_len: source.len(),
                    needed: T::width() as usize,
                })
            },
        },
{
    let needed = T::size();
    let source_len = source.len();
    if source_len < needed {
        return Err(ArconStateError::FixedBytesDeserializationError { source_len, needed });
    }
    let head = slice_subrange(source, 0, needed);
    assert(head@ == source@.take(needed as int));
    Ok(T::from_fixed(head))
}

/// Appends the encoding of `payload` to `dest`.
pub fn serialize_into<T: FixedBytes>(dest: &mut Vec<u8>, payload: &T)
    ensures
        final(dest)@ == old(dest)@ + payload.fixed(),
{
    let mut bytes = payload.to_fixed();
    dest.append(&mut bytes);
}

} // verus!
