use minbin::{from_bytes, read_bytes, to_bytes, write_bytes, ToFromBytes};

#[test]
fn test_tuple_1() {
    for expected in [(42u32,)] {
        let bytes = to_bytes(&expected).unwrap();
        let actual = from_bytes::<(u32,)>(&bytes).unwrap();
        assert_eq!(expected, actual);
    }
}

#[test]
fn test_tuple_2() {
    for expected in [(42u32, "test")] {
        let bytes = to_bytes(&expected).unwrap();
        let actual = from_bytes::<(u32, &str)>(&bytes).unwrap();
        assert_eq!(expected, actual);
    }
}

#[test]
fn test_tuple_3() {
    for expected in [(42u32, "cafÃ©", Some(7u8))] {
        let bytes = to_bytes(&expected).unwrap();
        let actual = from_bytes::<(u32, &str, Option<u8>)>(&bytes).unwrap();
        assert_eq!(expected, actual);
    }
}

#[test]
fn tuples_test_tuple_2() {
    let expected = (0u8, 1u8);

    let mut buffer = vec![0u8; expected.byte_count()];
    let write_pos = write_bytes(&expected, &mut buffer).unwrap();
    let (actual, read_pos): ((u8, u8), usize) = read_bytes(&buffer[..write_pos]).unwrap();

    assert_eq!(expected.byte_count(), read_pos);
    assert_eq!(expected, actual);
}

#[test]
fn test_tuple_12() {
    let expected = (0u8, 1u8, 2u8, 3u8, 4u8, 5u8, 6u8, 7u8, 8u8, 9u8, 10u8, 11u8);

    let mut buffer = vec![0u8; expected.byte_count()];
    let write_pos = write_bytes(&expected, &mut buffer).unwrap();
    let (actual, read_pos): ((u8, u8, u8, u8, u8, u8, u8, u8, u8, u8, u8, u8), usize) =
        read_bytes(&buffer[..write_pos]).unwrap();

    assert_eq!(expected.byte_count(), read_pos);
    assert_eq!(expected, actual);
}

#[test]
fn test_tuple_containers() {
    let expected = (Some(1u8), "");

    let mut buffer = vec![0u8; expected.byte_count()];
    let write_pos = write_bytes(&expected, &mut buffer).unwrap();
    let (actual, read_pos): ((Option<u8>, &str), usize) = read_bytes(&buffer[..write_pos]).unwrap();

    assert_eq!(expected.byte_count(), read_pos);
    assert_eq!(expected, actual);
}

#[test]
fn tuples_have_no_separators() {
    assert_eq!(to_bytes(&(1u8, true)).unwrap(), vec![1, 1]);
    assert_eq!(to_bytes(&(1u8, 2u16, 3u8)).unwrap(), vec![1, 0, 2, 3]);
    assert_eq!((1u8, 2u16, 3u8).byte_count(), 4);
}

#[test]
fn thirteen_elements() {
    let expected = (1u8, 2u16, 3u32, 4u64, 5u128, -6i8, -7i16, -8i32, -9i64, -10i128, true, 'x' as u8, "z");
    let bytes = to_bytes(&expected).unwrap();
    assert_eq!(bytes.len(), expected.byte_count());
    assert_eq!(bytes.len(), 1 + 2 + 4 + 8 + 16 + 1 + 2 + 4 + 8 + 16 + 1 + 1 + 5);
    let actual = from_bytes::<(u8, u16, u32, u64, u128, i8, i16, i32, i64, i128, bool, u8, &str)>(&bytes).unwrap();
    assert_eq!((expected.0, expected.1, expected.2, expected.3), (actual.0, actual.1, actual.2, actual.3));
    assert_eq!((expected.4, expected.5, expected.6, expected.7), (actual.4, actual.5, actual.6, actual.7));
    assert_eq!((expected.8, expected.9, expected.10, expected.11, expected.12), (actual.8, actual.9, actual.10, actual.11, actual.12));
}
