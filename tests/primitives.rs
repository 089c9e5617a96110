use minbin::{from_bytes, read_bytes, to_bytes, write_bytes, ToFromBytes};

fn roundtrip<T>(cases: &[T])
where
    T: for<'a> ToFromBytes<'a> + PartialEq + std::fmt::Debug,
{
    for expected in cases {
        let bytes = to_bytes(expected).expect("serialization failed");
        let actual = from_bytes::<T>(&bytes).expect("deserialization failed");
        assert_eq!(*expected, actual);
        assert_eq!(bytes.len(), expected.byte_count());
    }
}

#[test]
fn test_u8() {
    roundtrip::<u8>(&[u8::MIN, 42, u8::MAX]);
}

#[test]
fn test_i8() {
    roundtrip::<i8>(&[i8::MIN, 42, i8::MAX]);
}

#[test]
fn test_u16() {
    roundtrip::<u16>(&[u16::MIN, 42, u16::MAX]);
}

#[test]
fn test_i16() {
    roundtrip::<i16>(&[i16::MIN, 42, i16::MAX]);
}

#[test]
fn test_u32() {
    roundtrip::<u32>(&[u32::MIN, 42, u32::MAX]);
}

#[test]
fn test_i32() {
    roundtrip::<i32>(&[i32::MIN, 42, i32::MAX]);
}

#[test]
fn test_u64() {
    roundtrip::<u64>(&[u64::MIN, 42, u64::MAX]);
}

#[test]
fn test_i64() {
    roundtrip::<i64>(&[i64::MIN, 42, i64::MAX]);
}

#[test]
fn test_u128() {
    roundtrip::<u128>(&[u128::MIN, 42, u128::MAX]);
}

#[test]
fn test_i128() {
    roundtrip::<i128>(&[i128::MIN, 42, i128::MAX]);
}

#[test]
fn test_bool() {
    roundtrip::<bool>(&[true, false]);
}

fn buffer_roundtrip<T>(cases: &[T])
where
    T: for<'a> ToFromBytes<'a> + PartialEq + std::fmt::Debug + Copy,
{
    for &expected in cases {
        let mut buffer = vec![0u8; expected.byte_count()];
        let write_pos = write_bytes(&expected, &mut buffer).unwrap();
        let (actual, read_pos): (T, usize) = read_bytes(&buffer[..write_pos]).unwrap();

        assert_eq!(expected.byte_count(), read_pos);
        assert_eq!(expected, actual);
    }
}

#[test]
fn primitives_test_u8() {
    buffer_roundtrip::<u8>(&[u8::MIN, 42, u8::MAX]);
}

#[test]
fn primitives_test_i8() {
    buffer_roundtrip::<i8>(&[i8::MIN, 42, i8::MAX]);
}

#[test]
fn primitives_test_u16() {
    buffer_roundtrip::<u16>(&[u16::MIN, 42, u16::MAX]);
}

#[test]
fn primitives_test_i16() {
    buffer_roundtrip::<i16>(&[i16::MIN, 42, i16::MAX]);
}

#[test]
fn primitives_test_u32() {
    buffer_roundtrip::<u32>(&[u32::MIN, 42, u32::MAX]);
}

#[test]
fn primitives_test_i32() {
    buffer_roundtrip::<i32>(&[i32::MIN, 42, i32::MAX]);
}

#[test]
fn primitives_test_u64() {
    buffer_roundtrip::<u64>(&[u64::MIN, 42, u64::MAX]);
}

#[test]
fn primitives_test_i64() {
    buffer_roundtrip::<i64>(&[i64::MIN, 42, i64::MAX]);
}

#[test]
fn primitives_test_u128() {
    buffer_roundtrip::<u128>(&[u128::MIN, 42, u128::MAX]);
}

#[test]
fn primitives_test_i128() {
    buffer_roundtrip::<i128>(&[i128::MIN, 42, i128::MAX]);
}

#[test]
fn u32_is_four_big_endian_bytes() {
    assert_eq!(to_bytes(&123456u32).unwrap(), vec![0x00, 0x01, 0xE2, 0x40]);
}

#[test]
fn signed_values_are_twos_complement() {
    assert_eq!(to_bytes(&-2i32).unwrap(), vec![0xFF, 0xFF, 0xFF, 0xFE]);
    assert_eq!(to_bytes(&i16::MIN).unwrap(), vec![0x80, 0x00]);
    assert_eq!(to_bytes(&-1i128).unwrap(), vec![0xFF; 16]);
    assert_eq!(from_bytes::<i64>(&[0xFF, 0xFF, 0xFF, 0xFF, 0xFF, 0xFF, 0xFF, 0x85]).unwrap(), -123);
}

#[test]
fn wide_integers_keep_byte_order() {
    assert_eq!(
        to_bytes(&0x0102_0304_0506_0708u64).unwrap(),
        vec![1, 2, 3, 4, 5, 6, 7, 8]
    );
    assert_eq!(from_bytes::<u16>(&[0x12, 0x34]).unwrap(), 0x1234);
}

#[test]
fn bool_bytes_other_than_zero_and_one_are_invalid() {
    assert_eq!(to_bytes(&true).unwrap(), vec![1]);
    assert_eq!(to_bytes(&false).unwrap(), vec![0]);
    assert_eq!(from_bytes::<bool>(&[2]), Err(minbin::ToFromByteError::InvalidValue));
}

#[test]
fn integer_ceilings_are_their_widths() {
    assert_eq!(u8::max_bytes(), 1);
    assert_eq!(i16::max_bytes(), 2);
    assert_eq!(u32::max_bytes(), 4);
    assert_eq!(i64::max_bytes(), 8);
    assert_eq!(u128::max_bytes(), 16);
    assert_eq!(bool::max_bytes(), 1);
    assert_eq!(
        from_bytes::<u32>(&[0, 0, 0, 0, 0]),
        Err(minbin::ToFromByteError::MaxBytesExceeded)
    );
}
