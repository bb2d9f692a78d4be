use vstd::prelude::*;
use crate::error::ArconStateError;

verus! {

/// A number in base 128, least digit first, one byte to a digit; every byte
/// but the last has its high bit set.
pub open spec fn varint(value: u64) -> Seq<u8>
    decreases value,
{
    if value < 0x80 {
        seq![value as u8]
    } else {
        seq![(value % 0x80 + 0x80) as u8] + varint((value / 0x80) as u64)
    }
}

/// The structured encoding of a `u64`: nothing for zero, else the tag of the
/// first field as a number and the number in base 128.
pub open spec fn protobuf_u64(value: u64) -> Seq<u8> {
    if value == 0 {
        Seq::empty()
    } else {
        seq![0x08u8] + varint(value)
    }
}

/// What prost's `Message::decode` for `u64` makes of a buffer; `None` where it fails.
pub uninterp spec fn protobuf_u64_decoded(bytes: Seq<u8>) -> Option<u64>;

/// The structured encoding of a `u32`: nothing for zero, else the tag of the
/// first field as a number and the number in base 128.
pub open spec fn protobuf_u32(value: u32) -> Seq<u8> {
    if value == 0 {
        Seq::empty()
    } else {
        seq![0x08u8] + varint(value as u64)
    }
}

/// What prost's `Message::decode` for `u32` makes of a buffer; `None` where it fails.
pub uninterp spec fn protobuf_u32_decoded(bytes: Seq<u8>) -> Option<u32>;

/// The structured encoding of a byte string: nothing for the empty one, else
/// the tag of the first field as a byte string, the length in base 128, and
/// the bytes.
pub open spec fn protobuf_bytes(value: Seq<u8>) -> Seq<u8> {
    if value.len() == 0 {
        Seq::empty()
    } else {
        seq![0x0au8] + varint(value.len() as u64) + value
    }
}

/// What prost's `Message::decode` for `Vec<u8>` makes of a buffer; `None` where it fails.
pub uninterp spec fn protobuf_bytes_decoded(bytes: Seq<u8>) -> Option<Seq<u8>>;

/// The power of 128 with the given exponent.
pub open spec fn pow128(exponent: nat) -> int
    decreases exponent,
{
    if exponent == 0 {
        1
    } else {
        128 * pow128((exponent - 1) as nat)
    }
}

/// A number below the `digits`-th power of 128 has at most that many digits
/// in base 128.
pub proof fn lemma_varint_digits(value: u64, digits: nat)
    requires
        digits >= 1,
        value < pow128(digits),
    ensures
        1 <= varint(value).len() <= digits,
    decreases digits,
{
    if value >= 0x80 {
        assert(pow128(1) == 128) by {
            reveal_with_fuel(pow128, 2);
        }
        assert(pow128(digits) == 128 * pow128((digits - 1) as nat));
        lemma_varint_digits((value / 0x80) as u64, (digits - 1) as nat);
    }
}

/// A `u64` has between one and ten digits in base 128.
pub proof fn lemma_varint_length(value: u64)
    ensures
        1 <= varint(value).len() <= 10,
{
    assert(pow128(10) == 0x400000000000000000) by {
        reveal_with_fuel(pow128, 11);
    }
    lemma_varint_digits(value, 10);
}

/// How long the structured encoding of a byte string of the given length is.
pub open spec fn bytes_encoding_length(len: nat) -> nat {
    if len == 0 {
        0
    } else {
        1 + varint(len as u64).len() + len
    }
}

/// The structured encoding of a byte string is as long as its length says:
/// no shorter than the byte string and at most eleven bytes longer.
pub proof fn lemma_bytes_encoding_length(value: Seq<u8>)
    ensures
        protobuf_bytes(value).len() == bytes_encoding_length(value.len()),
        value.len() <= bytes_encoding_length(value.len()) <= value.len() + 11,
{
    lemma_varint_length(value.len() as u64);
}

/// Calls prost's `Message::encode` for `u64` on an empty `Vec<u8>`. It writes
/// nothing for zero, else the key of field 1 with the wire type for numbers,
/// which is the byte 8, and the value in base 128. These are at most eleven
/// bytes and a vector has room for them, so the call succeeds; decoding what
/// it wrote gives the value back.
#[verifier::external_body]
fn encode_u64(value: &u64) -> (r: Result<Vec<u8>, prost::EncodeError>)
    ensures
        match r {
            Ok(bytes) => bytes@ == protobuf_u64(*value) && protobuf_u64_decoded(bytes@) == Some(
                *value,
            ),
            Err(_) => false,
        },
{
    let mut buf: Vec<u8> = Vec::new();
    match prost::Message::encode(value, &mut buf) {
        Ok(()) => Ok(buf),
        Err(e) => Err(e),
    }
}

/// Calls prost's `Message::decode` for `u64` on the whole of `bytes`.
#[verifier::external_body]
fn decode_u64(bytes: &[u8]) -> (r: Result<u64, prost::DecodeError>)
    ensures
        match r {
            Ok(value) => protobuf_u64_decoded(bytes@) == Some(value),
            Err(_) => protobuf_u64_decoded(bytes@) is None,
        },
{
    prost::Message::decode(bytes)
}

/// Calls prost's `Message::encode` for `u32` on an empty `Vec<u8>`. It writes
/// nothing for zero, else the key of field 1 with the wire type for numbers,
/// which is the byte 8, and the value in base 128. These are at most six
/// bytes and a vector has room for them, so the call succeeds; decoding what
/// it wrote gives the value back.
#[verifier::external_body]
fn encode_u32(value: &u32) -> (r: Result<Vec<u8>, prost::EncodeError>)
    ensures
        match r {
            Ok(bytes) => bytes@ == protobuf_u32(*value) && protobuf_u32_decoded(bytes@) == Some(
                *value,
            ),
            Err(_) => false,
        },
{
    let mut buf: Vec<u8> = Vec::new();
    match prost::Message::encode(value, &mut buf) {
        Ok(()) => Ok(buf),
        Err(e) => Err(e),
    }
}

/// Calls prost's `Message::decode` for `u32` on the whole of `bytes`.
#[verifier::external_body]
fn decode_u32(bytes: &[u8]) -> (r: Result<u32, prost::DecodeError>)
    ensures
        match r {
            Ok(value) => protobuf_u32_decoded(bytes@) == Some(value),
            Err(_) => protobuf_u32_decoded(bytes@) is None,
        },
{
    prost::Message::decode(bytes)
}

/// Calls prost's `Message::encode` for `Vec<u8>` on an empty `Vec<u8>`. It
/// writes nothing for no bytes, else the key of field 1 with the wire type for
/// byte strings, which is the byte 10, the length in base 128, and the bytes.
/// That is at most eleven bytes more than the value; the call fails only
/// where that exceeds what a vector can hold. Decoding what it wrote gives the
/// value back.
#[verifier::external_body]
fn encode_bytes(value: &Vec<u8>) -> (r: Result<Vec<u8>, prost::EncodeError>)
    ensures
        value@.len() + 11 <= isize::MAX ==> r is Ok,
        r matches Ok(bytes) ==> bytes@ == protobuf_bytes(value@) && protobuf_bytes_decoded(bytes@)
            == Some(value@),
{
    let mut buf: Vec<u8> = Vec::new();
    match prost::Message::encode(value, &mut buf) {
        Ok(()) => Ok(buf),
        Err(e) => Err(e),
    }
}

/// Calls prost's `Message::decode` for `Vec<u8>` on the whole of `bytes`.
#[verifier::external_body]
fn decode_bytes(bytes: &[u8]) -> (r: Result<Vec<u8>, prost::DecodeError>)
    ensures
        match r {
            Ok(value) => protobuf_bytes_decoded(bytes@) == Some(value@),
            Err(_) => protobuf_bytes_decoded(bytes@) is None,
        },
{
    prost::Message::decode(bytes)
}

/// A type that can be stored: it has a structured byte encoding from which the
/// value can be read back.
pub trait Value: Sized + View {
    /// The encoding of a value.
    spec fn encoding(value: Self::V) -> Seq<u8>;

    /// The value that a byte string stands for, if it is well formed.
    spec fn decoding(bytes: Seq<u8>) -> Option<Self::V>;

    /// Whether encoding the value is sure to succeed.
    spec fn encodable(value: Self::V) -> bool;

    fn serialize(&self) -> (r: Result<Vec<u8>, ArconStateError>)
        ensures
            Self::encodable(self@) ==> r is Ok,
            match r {
                Ok(bytes) => bytes@ == Self::encoding(self@) && Self::decoding(bytes@) == Some(
                    self@,
                ),
                Err(e) => e is ProtobufEncodeError,
            },
    ;

    fn deserialize(bytes: &[u8]) -> (r: Result<Self, ArconStateError>)
        ensures
            match r {
                Ok(value) => Self::decoding(bytes@) == Some(value@),
                Err(e) => Self::decoding(bytes@) is None && e is ProtobufDecodeError,
            },
    ;
}

/// A type that can key a map state.
pub trait Key: Value {

}

impl Value for u64 {
    open spec fn encoding(value: u64) -> Seq<u8> {
        protobuf_u64(value)
    }

    open spec fn decoding(bytes: Seq<u8>) -> Option<u64> {
        protobuf_u64_decoded(bytes)
    }

    open spec fn encodable(value: u64) -> bool {
        true
    }

    fn serialize(&self) -> (r: Result<Vec<u8>, ArconStateError>) {
        match encode_u64(self) {
            Ok(bytes) => Ok(bytes),
            Err(e) => Err(ArconStateError::ProtobufEncodeError { source: e }),
        }
    }

    fn deserialize(bytes: &[u8]) -> (r: Result<Self, ArconStateError>) {
        match decode_u64(bytes) {
            Ok(value) => Ok(value),
            Err(e) => Err(ArconStateError::ProtobufDecodeError { source: e }),
        }
    }
}

impl Key for u64 {

}

impl Value for u32 {
    open spec fn encoding(value: u32) -> Seq<u8> {
        protobuf_u32(value)
    }

    open spec fn decoding(bytes: Seq<u8>) -> Option<u32> {
        protobuf_u32_decoded(bytes)
    }

    open spec fn encodable(value: u32) -> bool {
        true
    }

    fn serialize(&self) -> (r: Result<Vec<u8>, ArconStateError>) {
        match encode_u32(self) {
            Ok(bytes) => Ok(bytes),
            Err(e) => Err(ArconStateError::ProtobufEncodeError { source: e }),
        }
    }

    fn deserialize(bytes: &[u8]) -> (r: Result<Self, ArconStateError>) {
        match decode_u32(bytes) {
            Ok(value) => Ok(value),
            Err(e) => Err(ArconStateError::ProtobufDecodeError { source: e }),
        }
    }
}

impl Key for u32 {

}

impl Value for Vec<u8> {
    open spec fn encoding(value: Seq<u8>) -> Seq<u8> {
        protobuf_bytes(value)
    }

    open spec fn decoding(bytes: Seq<u8>) -> Option<Seq<u8>> {
        protobuf_bytes_decoded(bytes)
    }

    open spec fn encodable(value: Seq<u8>) -> bool {
        value.len() + 11 <= isize::MAX
    }

    fn serialize(&self) -> (r: Result<Vec<u8>, ArconStateError>)
        ensures
            r matches Ok(bytes) ==> bytes@.len() == bytes_encoding_length(self@.len()),
            r matches Ok(bytes) ==> self@.len() <= bytes@.len() <= self@.len() + 11,
    {
        proof {
            lemma_bytes_encoding_length(self@);
        }
        match encode_bytes(self) {
            Ok(bytes) => Ok(bytes),
            Err(e) => Err(ArconStateError::ProtobufEncodeError { source: e }),
        }
    }

    fn deserialize(bytes: &[u8]) -> (r: Result<Self, ArconStateError>) {
        match decode_bytes(bytes) {
            Ok(value) => Ok(value),
            Err(e) => Err(ArconStateError::ProtobufDecodeError { source: e }),
        }
    }
}

impl Key for Vec<u8> {

}

} // verus!
