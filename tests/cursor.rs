//! Tests for BytesReader and BytesWriter

use minbin::{BytesReader, BytesWriter, ToFromByteError};

#[test]
fn cursor_writer_partial() {
    let mut buffer = [0u8; 32];
    let mut writer = BytesWriter::new(&mut buffer);

    writer.write_bytes(&[1, 2, 3]).unwrap();
    writer.write_bytes(&[4, 5]).unwrap();

    assert_eq!(writer.pos, 5);
}

#[test]
fn cursor_writer_full() {
    let mut buffer = [0u8; 4];
    let mut writer = BytesWriter::new(&mut buffer);

    writer.write_bytes(&[1u8, 1u8, 1u8, 1u8]).unwrap();
    assert_eq!(writer.pos, 4);
}

#[test]
fn cursor_writer_overflow() {
    let mut buffer = [0u8; 4];
    let mut writer = BytesWriter::new(&mut buffer);

    writer.write_bytes(&[1, 2, 3, 4]).unwrap();

    let err = writer.write_bytes(&[5]).unwrap_err();
    assert_eq!(err, ToFromByteError::NotEnoughBytes);
}

#[test]
fn cursor_reader_partial() {
    let data = [1, 2, 3, 4, 5, 6];
    let mut reader = BytesReader::new(&data);

    assert_eq!(reader.read_bytes(3).unwrap(), &[1, 2, 3]);
    assert_eq!(reader.read_bytes(2).unwrap(), &[4, 5]);
    assert_eq!(reader.pos, 5);
}

#[test]
fn cursor_reader_full() {
    let data = [0u8, 1u8, 2u8, 3u8];
    let mut reader = BytesReader::new(&data);

    assert_eq!(reader.read_bytes(4).unwrap(), &[0u8, 1u8, 2u8, 3u8]);
    assert_eq!(reader.pos, data.len());
}

#[test]
fn cursor_reader_overflow() {
    let data = [1, 2, 3];
    let mut reader = BytesReader::new(&data);

    let err = reader.read_bytes(4).unwrap_err();
    assert_eq!(err, ToFromByteError::NotEnoughBytes);
}

#[test]
fn cursor_reader_chunks() {
    let data = b"simbin";
    let mut reader = BytesReader::new(data);

    assert_eq!(reader.read_bytes(3).unwrap(), b"sim");
    assert_eq!(reader.pos, 3);
    assert_eq!(reader.read_bytes(3).unwrap(), b"bin");
    assert_eq!(reader.pos, 3 + 3);
}

#[test]
fn writer_and_reader() {
    let mut buffer = [0u8; 16];
    let pos = {
        let mut writer = BytesWriter::new(&mut buffer);

        writer.write_bytes(&[0u8, 1u8]).unwrap();
        writer.write_bytes(&[2u8, 3u8, 4u8]).unwrap();

        writer.pos
    };

    let mut reader = BytesReader::new(&buffer[..pos]);
    assert_eq!(reader.read_bytes(2).unwrap(), &[0u8, 1u8]);
    assert_eq!(reader.read_bytes(3).unwrap(), &[2u8, 3u8, 4u8]);
    assert_eq!(reader.pos, 2 + 3);
}

#[test]
fn reader_reader_partial() {
    let data = [1, 2, 3, 4, 5, 6];
    let mut reader = BytesReader::new(&data);

    assert_eq!(reader.read_bytes(3).unwrap(), &[1, 2, 3]);
    assert_eq!(reader.read_bytes(2).unwrap(), &[4, 5]);
    assert_eq!(reader.pos, 5);
}

#[test]
fn reader_reader_full() {
    let data = [0u8, 1u8, 2u8, 3u8];
    let mut reader = BytesReader::new(&data);

    assert_eq!(reader.read_bytes(4).unwrap(), &[0u8, 1u8, 2u8, 3u8]);
    assert_eq!(reader.pos, data.len());
}

#[test]
fn reader_reader_overflow() {
    let data = [1, 2, 3];
    let mut reader = BytesReader::new(&data);

    let err = reader.read_bytes(4).unwrap_err();
    assert_eq!(err, ToFromByteError::NotEnoughBytes);
}

#[test]
fn reader_reader_chunks() {
    let data = b"simbin";
    let mut reader = BytesReader::new(data);

    assert_eq!(reader.read_bytes(3).unwrap(), b"sim");
    assert_eq!(reader.pos, 3);
    assert_eq!(reader.read_bytes(3).unwrap(), b"bin");
    assert_eq!(reader.pos, 3 + 3);
}

#[test]
fn writer_writer_partial() {
    let mut buffer = [0u8; 32];
    let mut writer = BytesWriter::new(&mut buffer);

    writer.write_bytes(&[1, 2, 3]).unwrap();
    writer.write_bytes(&[4, 5]).unwrap();

    assert_eq!(writer.pos, 5);
}

#[test]
fn writer_writer_full() {
    let mut buffer = [0u8; 4];
    let mut writer = BytesWriter::new(&mut buffer);

    writer.write_bytes(&[1u8, 1u8, 1u8, 1u8]).unwrap();
    assert_eq!(writer.pos, 4);
}

#[test]
fn writer_writer_overflow() {
    let mut buffer = [0u8; 4];
    let mut writer = BytesWriter::new(&mut buffer);

    writer.write_bytes(&[1, 2, 3, 4]).unwrap();

    let err = writer.write_bytes(&[5]).unwrap_err();
    assert_eq!(err, ToFromByteError::NotEnoughBytes);
}

#[test]
fn failed_write_changes_nothing() {
    let mut buffer = [9u8; 3];
    {
        let mut writer = BytesWriter::new(&mut buffer);
        writer.write_bytes(&[1]).unwrap();
        assert_eq!(writer.write_bytes(&[2, 3, 4]), Err(ToFromByteError::NotEnoughBytes));
        assert_eq!(writer.pos, 1);
    }
    assert_eq!(buffer, [1, 9, 9]);
}

#[test]
fn typed_reads_and_writes_share_a_buffer() {
    let mut buffer = [0u8; 16];
    let pos = {
        let mut writer = BytesWriter::new(&mut buffer);
        writer.write(&7u16).unwrap();
        writer.write(&"ab").unwrap();
        writer.write(&Some(true)).unwrap();
        assert_eq!(writer.write(&0u64), Err(ToFromByteError::NotEnoughBytes));
        writer.pos
    };
    assert_eq!(&buffer[..pos], &[0, 7, 0, 0, 0, 2, b'a', b'b', 1, 1]);

    let mut reader = BytesReader::new(&buffer[..pos]);
    assert_eq!(reader.read::<u16>().unwrap(), 7);
    assert_eq!(reader.read::<&str>().unwrap(), "ab");
    assert_eq!(reader.read::<Option<bool>>().unwrap(), Some(true));
    assert_eq!(reader.pos, pos);
    assert_eq!(reader.read::<u8>(), Err(ToFromByteError::NotEnoughBytes));
}

#[test]
fn error_messages() {
    assert_eq!(ToFromByteError::NotEnoughBytes.message(), "not enough bytes");
    assert_eq!(ToFromByteError::TrailingBytes.message(), "trailing bytes");
    assert_eq!(ToFromByteError::MaxBytesExceeded.message(), "max bytes exceeded");
    assert_eq!(ToFromByteError::InvalidValue.message(), "invalid value");
}

#[test]
fn failed_typed_reads_keep_the_position() {
    let data = [0u8, 9, 2, 1, 0, 0, 0, 5, b'a'];
    let mut reader = BytesReader::new(&data);
    assert_eq!(reader.read::<u8>().unwrap(), 0);

    assert_eq!(reader.read::<bool>(), Err(ToFromByteError::InvalidValue));
    assert_eq!(reader.pos, 1);
    assert_eq!(reader.read::<Option<u8>>(), Err(ToFromByteError::InvalidValue));
    assert_eq!(reader.pos, 1);
    assert_eq!(reader.read::<(u8, u8, u64)>(), Err(ToFromByteError::NotEnoughBytes));
    assert_eq!(reader.pos, 1);
    assert_eq!(reader.read::<u128>(), Err(ToFromByteError::NotEnoughBytes));
    assert_eq!(reader.pos, 1);

    assert_eq!(reader.read::<(u8, u8)>().unwrap(), (9, 2));
    assert_eq!(reader.read::<Vec<u8>>(), Err(ToFromByteError::NotEnoughBytes));
    assert_eq!(reader.pos, 3);
    assert_eq!(reader.read::<u8>().unwrap(), 1);
    assert_eq!(reader.read::<&str>(), Err(ToFromByteError::NotEnoughBytes));
    assert_eq!(reader.pos, 4);
}
