use vstd::prelude::*;
use crate::error::ArconStateError;
use crate::model::Store;
use crate::serialization::protobuf::Value;

verus! {

/// Encodes each of the values, in order; fails at the first that cannot be encoded.
pub fn serialize_all<T: Value>(values: &Vec<T>) -> (r: Result<Vec<Vec<u8>>, ArconStateError>)
    ensures
        match r {
            Ok(items) => {
                &&& crate::in_memory::item_bytes(items@) == Store::encodings(values@)
                &&& Store::decode_back(values@)
            },
            Err(e) => e is ProtobufEncodeError && Store::some_unencodable(values@),
        },
{
    let mut items: Vec<Vec<u8>> = Vec::new();
    let mut i: usize = 0;
    while i < values.len()
        invariant
            i <= values.len(),
            items@.len() == i,
            forall|j: int| 0 <= j < i ==> (#[trigger] items@[j])@ == T::encoding(values@[j]@),
            forall|j: int|
                0 <= j < i ==> T::decoding(T::encoding(#[trigger] values@[j]@)) == Some(
                    values@[j]@,
                ),
        decreases values.len() - i,
    {
        match values[i].serialize() {
            Ok(bytes) => {
                items.push(bytes);
            },
            Err(e) => {
                assert(!T::encodable(values@[i as int]@));
                return Err(e);
            },
        }
        i = i + 1;
    }
    assert(crate::in_memory::item_bytes(items@) =~= Store::encodings(values@));
    Ok(items)
}

/// Decodes each of the items, in order; fails at the first that cannot be decoded.
pub fn deserialize_all<T: Value>(items: &Vec<Vec<u8>>) -> (r: Result<Vec<T>, ArconStateError>)
    ensures
        match r {
            Ok(values) => Store::decodes_items(crate::in_memory::item_bytes(items@), values@),
            Err(e) => e is ProtobufDecodeError && Store::some_item_unreadable::<T>(
                crate::in_memory::item_bytes(items@),
            ),
        },
{
    let ghost raw = crate::in_memory::item_bytes(items@);
    let mut values: Vec<T> = Vec::new();
    let mut i: usize = 0;
    while i < items.len()
        invariant
            i <= items.len(),
            values@.len() == i,
            raw == crate::in_memory::item_bytes(items@),
            forall|j: int| 0 <= j < i ==> T::decoding(#[trigger] raw[j]) == Some(values@[j]@),
        decreases items.len() - i,
    {
        match T::deserialize(items[i].as_slice()) {
            Ok(value) => {
                values.push(value);
            },
            Err(e) => {
                assert(T::decoding(raw[i as int]) is None);
                return Err(e);
            },
        }
        i = i + 1;
    }
    Ok(values)
}

/// Encodes each pair, last pair first; fails at the first key or value that
/// cannot be encoded.
pub fn serialize_pairs_reversed<K: Value, V: Value>(pairs: &Vec<(K, V)>) -> (r: Result<
    Vec<(Vec<u8>, Vec<u8>)>,
    ArconStateError,
>)
    ensures
        match r {
            Ok(encoded) => {
                &&& crate::in_memory::raw_pairs(encoded@) == Store::encoded_pairs(pairs@).reverse()
                &&& Store::pairs_decode_back(pairs@)
            },
            Err(e) => e is ProtobufEncodeError && Store::some_pair_unencodable(pairs@),
        },
{
    let n = pairs.len();
    let mut encoded: Vec<(Vec<u8>, Vec<u8>)> = Vec::new();
    let mut i: usize = n;
    while i > 0
        invariant
            i <= n,
            n == pairs@.len(),
            encoded@.len() == n - i,
            forall|j: int|
                0 <= j < n - i ==> {
                    &&& (#[trigger] encoded@[j]).0@ == K::encoding(pairs@[n - 1 - j].0@)
                    &&& encoded@[j].1@ == V::encoding(pairs@[n - 1 - j].1@)
                },
            forall|j: int|
                i <= j < n ==> {
                    &&& K::decoding(K::encoding((#[trigger] pairs@[j]).0@)) == Some(pairs@[j].0@)
                    &&& V::decoding(V::encoding(pairs@[j].1@)) == Some(pairs@[j].1@)
                },
        decreases i,
    {
        i = i - 1;
        let key_bytes = match pairs[i].0.serialize() {
            Ok(bytes) => bytes,
            Err(e) => {
                assert(!K::encodable(pairs@[i as int].0@));
                return Err(e);
            },
        };
        let value_bytes = match pairs[i].1.serialize() {
            Ok(bytes) => bytes,
            Err(e) => {
                assert(!V::encodable(pairs@[i as int].1@));
                return Err(e);
            },
        };
        encoded.push((key_bytes, value_bytes));
    }
    assert(crate::in_memory::raw_pairs(encoded@) =~= Store::encoded_pairs(pairs@).reverse());
    Ok(encoded)
}

} // verus!
