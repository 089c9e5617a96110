use minbin::{from_bytes, read_bytes, to_bytes, write_bytes, ToFromByteError, ToFromBytes};

#[test]
fn test_options() {
    for expected in [None, Some(u32::MIN), Some(42), Some(u32::MAX)] {
        let bytes = to_bytes(&expected).expect("serialization failed");
        let actual = from_bytes::<Option<u32>>(&bytes).expect("deserialization failed");
        assert_eq!(expected, actual);
    }
}

#[test]
fn test_strs() {
    for expected in ["", "something", "else"] {
        let bytes = to_bytes(&expected).expect("serialization failed");
        let actual = from_bytes::<&str>(&bytes).expect("deserialization failed");
        assert_eq!(expected, actual);
    }
}

#[test]
fn test_option() {
    for expected in [None, Some(u32::MIN), Some(42), Some(u32::MAX)] {
        let mut buffer = vec![0u8; expected.byte_count()];
        let write_pos = write_bytes(&expected, &mut buffer).unwrap();
        let (actual, read_pos): (Option<u32>, usize) = read_bytes(&buffer[..write_pos]).unwrap();

        assert_eq!(expected.byte_count(), read_pos);
        assert_eq!(expected, actual);
    }
}

#[test]
fn test_str() {
    for expected in ["", "something", "else"] {
        let mut buffer = vec![0u8; expected.byte_count()];

        let write_pos = write_bytes(&expected, &mut buffer).unwrap();

        assert_eq!(expected.byte_count(), write_pos);

        let (actual, read_pos): (&str, usize) = read_bytes(&buffer).unwrap();

        assert_eq!(expected.byte_count(), read_pos);
        assert_eq!(expected, actual);
    }
}

#[test]
fn option_tags() {
    assert_eq!(to_bytes(&Some(7u8)).unwrap(), vec![1, 7]);
    assert_eq!(to_bytes(&None::<u8>).unwrap(), vec![0]);
}

#[test]
fn option_tag_out_of_range_is_invalid() {
    assert_eq!(from_bytes::<Option<u8>>(&[5]), Err(ToFromByteError::InvalidValue));
    assert_eq!(from_bytes::<Option<u8>>(&[2, 7]), Err(ToFromByteError::InvalidValue));
    assert_eq!(read_bytes::<Option<u8>>(&[2, 7]).unwrap_err(), ToFromByteError::InvalidValue);
}

#[test]
fn nested_options() {
    let value: Option<Option<u16>> = Some(None);
    assert_eq!(to_bytes(&value).unwrap(), vec![1, 0]);
    let value: Option<Option<u16>> = Some(Some(0x0102));
    let bytes = to_bytes(&value).unwrap();
    assert_eq!(bytes, vec![1, 1, 1, 2]);
    assert_eq!(from_bytes::<Option<Option<u16>>>(&bytes).unwrap(), value);
    assert_eq!(<Option<Option<u16>>>::max_bytes(), 4);
}

#[test]
fn string_layout() {
    assert_eq!(to_bytes(&"hi").unwrap(), vec![0, 0, 0, 2, b'h', b'i']);
    assert_eq!(to_bytes(&"hi".to_string()).unwrap(), vec![0, 0, 0, 2, b'h', b'i']);
    assert_eq!(from_bytes::<String>(&[0, 0, 0, 2, b'h', b'i']).unwrap(), "hi".to_string());
    assert_eq!(to_bytes(&"é").unwrap(), vec![0, 0, 0, 2, 0xC3, 0xA9]);
}

#[test]
fn string_with_missing_payload_needs_more_bytes() {
    assert_eq!(
        from_bytes::<&str>(&[0, 0, 0, 3, 0x41, 0x42]),
        Err(ToFromByteError::NotEnoughBytes)
    );
    assert_eq!(
        from_bytes::<String>(&[0, 0, 0, 3, 0x41, 0x42]),
        Err(ToFromByteError::NotEnoughBytes)
    );
}

#[test]
fn invalid_utf8_is_invalid() {
    assert_eq!(
        from_bytes::<String>(&[0, 0, 0, 2, 0xC3, 0x28]),
        Err(ToFromByteError::InvalidValue)
    );
    assert_eq!(
        from_bytes::<&str>(&[0, 0, 0, 1, 0xFF]),
        Err(ToFromByteError::InvalidValue)
    );
    assert_eq!(
        read_bytes::<String>(&[0, 0, 0, 1, 0x80, 9, 9]).unwrap_err(),
        ToFromByteError::InvalidValue
    );
}

#[test]
fn string_ceiling_is_enforced() {
    assert_eq!(<String>::max_bytes(), 102_400);
    assert_eq!(<&str>::max_bytes(), 102_400);
    let long = "a".repeat(102_400);
    assert_eq!(long.byte_count(), 102_404);
    assert_eq!(to_bytes(&long), Err(ToFromByteError::MaxBytesExceeded));
    let mut buffer = vec![0u8; 200_000];
    assert_eq!(write_bytes(&long, &mut buffer), Err(ToFromByteError::MaxBytesExceeded));
    assert!(buffer.iter().all(|b| *b == 0));
    let mut encoded = vec![0u8, 1, 144, 0];
    encoded.extend(std::iter::repeat(b'a').take(102_400));
    assert_eq!(from_bytes::<String>(&encoded), Err(ToFromByteError::MaxBytesExceeded));
    assert_eq!(read_bytes::<String>(&encoded).unwrap_err(), ToFromByteError::MaxBytesExceeded);
    let fits = "a".repeat(102_396);
    let bytes = to_bytes(&fits).unwrap();
    assert_eq!(bytes.len(), 102_400);
    assert_eq!(from_bytes::<String>(&bytes).unwrap(), fits);
}

#[test]
fn vectors_roundtrip() {
    let expected: Vec<u16> = vec![1, 2, 0xFFFF];
    let bytes = to_bytes(&expected).unwrap();
    assert_eq!(bytes, vec![0, 0, 0, 3, 0, 1, 0, 2, 0xFF, 0xFF]);
    assert_eq!(expected.byte_count(), 10);
    assert_eq!(from_bytes::<Vec<u16>>(&bytes).unwrap(), expected);

    let empty: Vec<u8> = Vec::new();
    assert_eq!(to_bytes(&empty).unwrap(), vec![0, 0, 0, 0]);

    let words: Vec<String> = vec!["a".to_string(), "".to_string(), "bc".to_string()];
    let bytes = to_bytes(&words).unwrap();
    assert_eq!(bytes.len(), words.byte_count());
    assert_eq!(from_bytes::<Vec<String>>(&bytes).unwrap(), words);
}

#[test]
fn vector_with_missing_elements_needs_more_bytes() {
    assert_eq!(
        from_bytes::<Vec<u8>>(&[0, 0, 0, 3, 1, 2]),
        Err(ToFromByteError::NotEnoughBytes)
    );
    assert_eq!(
        from_bytes::<Vec<Option<u8>>>(&[0, 0, 0, 2, 1, 4, 3]),
        Err(ToFromByteError::InvalidValue)
    );
}

#[test]
fn every_proper_prefix_needs_more_bytes() {
    let value = (Some(300u16), "héllo".to_string(), vec![true, false], -5i32);
    let bytes = to_bytes(&value).unwrap();
    assert_eq!(bytes.len(), value.byte_count());
    for n in 0..bytes.len() {
        let result = from_bytes::<(Option<u16>, String, Vec<bool>, i32)>(&bytes[..n]);
        assert_eq!(result, Err(ToFromByteError::NotEnoughBytes));
    }
    assert_eq!(
        from_bytes::<(Option<u16>, String, Vec<bool>, i32)>(&bytes).unwrap(),
        value
    );
}

#[test]
fn trailing_byte_is_refused() {
    let mut bytes = to_bytes(&"hi").unwrap();
    bytes.push(0);
    assert_eq!(from_bytes::<&str>(&bytes), Err(ToFromByteError::TrailingBytes));
    let (value, used) = read_bytes::<&str>(&bytes).unwrap();
    assert_eq!(value, "hi");
    assert_eq!(used, 6);
    assert_eq!(from_bytes::<Vec<u8>>(&[0, 0, 0, 0, 9]), Err(ToFromByteError::TrailingBytes));
}

#[test]
fn vector_ceiling_is_enforced() {
    assert_eq!(<Vec<u8>>::max_bytes(), 1_048_576);
    let at_ceiling = vec![7u8; 1_048_572];
    let bytes = to_bytes(&at_ceiling).unwrap();
    assert_eq!(bytes.len(), 1_048_576);
    assert_eq!(from_bytes::<Vec<u8>>(&bytes).unwrap(), at_ceiling);
    let over = vec![7u8; 1_048_573];
    assert_eq!(over.byte_count(), 1_048_577);
    assert_eq!(to_bytes(&over), Err(ToFromByteError::MaxBytesExceeded));
    let mut long = bytes.clone();
    long.push(7);
    assert_eq!(from_bytes::<Vec<u8>>(&long), Err(ToFromByteError::MaxBytesExceeded));
}

#[test]
fn small_buffer_is_reported_before_the_ceiling() {
    let long = "a".repeat(102_400);
    let mut buffer = vec![0u8; 10];
    assert_eq!(write_bytes(&long, &mut buffer), Err(ToFromByteError::NotEnoughBytes));
    assert!(buffer.iter().all(|b| *b == 0));
    let mut exact = vec![0u8; 6];
    assert_eq!(write_bytes(&"hi", &mut exact), Ok(6));
    assert_eq!(exact, vec![0, 0, 0, 2, b'h', b'i']);
}
