use arcon_state::error::ArconStateError;
use arcon_state::serialization::fixed_bytes::{deserialize, serialize, serialize_into, FixedBytes};
use arcon_state::serialization::protobuf::Value;

#[test]
fn fixed_sizes() {
    assert_eq!(<() as FixedBytes>::size(), 0);
    assert_eq!(<u8 as FixedBytes>::size(), 1);
    assert_eq!(<u16 as FixedBytes>::size(), 2);
    assert_eq!(<u32 as FixedBytes>::size(), 4);
    assert_eq!(<u64 as FixedBytes>::size(), 8);
}

#[test]
fn fixed_encodings_are_little_endian() {
    assert_eq!(().to_fixed(), Vec::<u8>::new());
    assert_eq!(7u8.to_fixed(), vec![7]);
    assert_eq!(0x0102u16.to_fixed(), vec![0x02, 0x01]);
    assert_eq!(0x01020304u32.to_fixed(), vec![0x04, 0x03, 0x02, 0x01]);
    assert_eq!(
        0x0102030405060708u64.to_fixed(),
        vec![0x08, 0x07, 0x06, 0x05, 0x04, 0x03, 0x02, 0x01]
    );
}

#[test]
fn fixed_decodings_give_the_value_back() {
    assert_eq!(u8::from_fixed(&[7]), 7);
    assert_eq!(u16::from_fixed(&[0x02, 0x01]), 0x0102);
    assert_eq!(u32::from_fixed(&[0x04, 0x03, 0x02, 0x01]), 0x01020304);
    assert_eq!(
        u64::from_fixed(&[0x08, 0x07, 0x06, 0x05, 0x04, 0x03, 0x02, 0x01]),
        0x0102030405060708
    );
    assert_eq!(u64::from_fixed(&u64::MAX.to_fixed()), u64::MAX);
    assert_eq!(u32::from_fixed(&0u32.to_fixed()), 0);
}

#[test]
fn serialize_overwrites_the_front_of_the_buffer() {
    let mut dest = vec![9u8; 6];
    assert!(serialize(&0x01020304u32, &mut dest).is_ok());
    assert_eq!(dest, vec![0x04, 0x03, 0x02, 0x01, 9, 9]);
}

#[test]
fn serialize_into_a_short_buffer_reports_both_lengths() {
    let mut dest = vec![9u8; 3];
    match serialize(&1u32, &mut dest) {
        Err(ArconStateError::FixedBytesSerializationError { dest_len, needed }) => {
            assert_eq!(dest_len, 3);
            assert_eq!(needed, 4);
        }
        other => panic!("unexpected: {:?}", other),
    }
    assert_eq!(dest, vec![9, 9, 9]);
}

#[test]
fn deserialize_reads_the_front_of_the_buffer() {
    let value: u16 = deserialize(&[0x34, 0x12, 0xff]).unwrap();
    assert_eq!(value, 0x1234);
    let unit: () = deserialize(&[]).unwrap();
    assert_eq!(unit, ());
}

#[test]
fn deserialize_from_a_short_buffer_reports_both_lengths() {
    match deserialize::<u64>(&[1, 2, 3]) {
        Err(ArconStateError::FixedBytesDeserializationError { source_len, needed }) => {
            assert_eq!(source_len, 3);
            assert_eq!(needed, 8);
        }
        other => panic!("unexpected: {:?}", other),
    }
}

#[test]
fn serialize_into_appends() {
    let mut dest = vec![1u8];
    serialize_into(&mut dest, &0x0203u16);
    serialize_into(&mut dest, &());
    serialize_into(&mut dest, &4u8);
    assert_eq!(dest, vec![1, 0x03, 0x02, 4]);
}

#[test]
fn structured_encoding_of_u64() {
    assert_eq!(0u64.serialize().unwrap(), Vec::<u8>::new());
    assert_eq!(5u64.serialize().unwrap(), vec![0x08, 0x05]);
    assert_eq!(300u64.serialize().unwrap(), vec![0x08, 0xac, 0x02]);
}

#[test]
fn structured_encoding_of_u32() {
    assert_eq!(0u32.serialize().unwrap(), Vec::<u8>::new());
    assert_eq!(1u32.serialize().unwrap(), vec![0x08, 0x01]);
    assert_eq!(128u32.serialize().unwrap(), vec![0x08, 0x80, 0x01]);
}

#[test]
fn structured_encoding_of_bytes() {
    assert_eq!(Vec::<u8>::new().serialize().unwrap(), Vec::<u8>::new());
    assert_eq!(vec![1u8, 2, 3].serialize().unwrap(), vec![0x0a, 0x03, 1, 2, 3]);
    assert_eq!(b"a".to_vec().serialize().unwrap(), vec![0x0a, 0x01, 0x61]);
}

#[test]
fn structured_decoding_gives_the_value_back() {
    assert_eq!(u64::deserialize(&[0x08, 0xac, 0x02]).unwrap(), 300);
    assert_eq!(u64::deserialize(&[]).unwrap(), 0);
    assert_eq!(u32::deserialize(&[0x08, 0x80, 0x01]).unwrap(), 128);
    assert_eq!(Vec::<u8>::deserialize(&[0x0a, 0x03, 1, 2, 3]).unwrap(), vec![1, 2, 3]);
    assert_eq!(Vec::<u8>::deserialize(&[]).unwrap(), Vec::<u8>::new());
    for value in [0u64, 1, 127, 128, 1 << 40, u64::MAX] {
        assert_eq!(u64::deserialize(&value.serialize().unwrap()).unwrap(), value);
    }
    for value in [0u32, 1, 127, 128, u32::MAX] {
        assert_eq!(u32::deserialize(&value.serialize().unwrap()).unwrap(), value);
    }
    let long = vec![7u8; 1000];
    assert_eq!(Vec::<u8>::deserialize(&long.serialize().unwrap()).unwrap(), long);
}

#[test]
fn malformed_structured_input_is_a_decode_error() {
    assert!(matches!(
        u64::deserialize(&[0x08]),
        Err(ArconStateError::ProtobufDecodeError { .. })
    ));
    assert!(matches!(
        u32::deserialize(&[0x08, 0x80]),
        Err(ArconStateError::ProtobufDecodeError { .. })
    ));
    assert!(matches!(
        Vec::<u8>::deserialize(&[0x0a, 0x02, 0x01]),
        Err(ArconStateError::ProtobufDecodeError { .. })
    ));
}

fn base_128(mut value: u64) -> Vec<u8> {
    let mut digits = Vec::new();
    while value >= 128 {
        digits.push((value % 128 + 128) as u8);
        value /= 128;
    }
    digits.push(value as u8);
    digits
}

#[test]
fn numbers_are_encoded_as_a_tag_and_base_128_digits() {
    let mut values = vec![0u64, 1, 127, 128, 129, 16383, 16384, u32::MAX as u64, u64::MAX];
    for shift in 0..64 {
        values.push(1u64 << shift);
        values.push((1u64 << shift) - 1);
    }
    for value in values {
        let mut expected = Vec::new();
        if value != 0 {
            expected.push(0x08);
            expected.extend(base_128(value));
        }
        assert_eq!(value.serialize().unwrap(), expected);
        if value <= u32::MAX as u64 {
            assert_eq!((value as u32).serialize().unwrap(), expected);
        }
    }
    assert_eq!(u64::MAX.serialize().unwrap().len(), 11);
    assert_eq!(u32::MAX.serialize().unwrap().len(), 6);
}

#[test]
fn byte_strings_are_encoded_as_a_tag_their_length_and_themselves() {
    for len in [0usize, 1, 2, 127, 128, 129, 2048, 16383, 16384, 70000] {
        let value: Vec<u8> = (0..len).map(|i| (i % 251) as u8).collect();
        let mut expected = Vec::new();
        if len != 0 {
            expected.push(0x0a);
            expected.extend(base_128(len as u64));
            expected.extend(value.iter());
        }
        assert_eq!(value.serialize().unwrap(), expected);
    }
}
