use minbin::{from_bytes, to_bytes, BytesReader, BytesWriter, ToFromByteError, ToFromBytes};

#[derive(Debug, PartialEq)]
enum ExampleEnum {
    Invalid,
    Ping,
    Temperature(i16),
    Location(i32, i32),
    Log { time: i64, message: String },

    EmptyTuple(),
    EmptyTuple2(()),
    EmptyStruct {},
}

/// A one-byte discriminant, then the variant's fields in order.
fn write_enum(value: &ExampleEnum, writer: &mut BytesWriter<'_>) -> Result<(), ToFromByteError> {
    match value {
        ExampleEnum::Ping => writer.write(&0u8),
        ExampleEnum::Temperature(degrees) => writer.write(&(1u8, *degrees)),
        ExampleEnum::Location(lat, lon) => writer.write(&(2u8, *lat, *lon)),
        ExampleEnum::Log { time, message } => writer.write(&(3u8, *time, message.as_str())),
        ExampleEnum::EmptyTuple() => writer.write(&4u8),
        ExampleEnum::EmptyTuple2(()) => writer.write(&5u8),
        ExampleEnum::EmptyStruct {} => writer.write(&6u8),
        ExampleEnum::Invalid => Err(ToFromByteError::InvalidValue),
    }
}

fn enum_byte_count(value: &ExampleEnum) -> usize {
    match value {
        ExampleEnum::Temperature(degrees) => 1 + degrees.byte_count(),
        ExampleEnum::Location(lat, lon) => 1 + lat.byte_count() + lon.byte_count(),
        ExampleEnum::Log { time, message } => 1 + time.byte_count() + message.byte_count(),
        _ => 1,
    }
}

fn read_enum(reader: &mut BytesReader<'_>) -> Result<ExampleEnum, ToFromByteError> {
    match reader.read::<u8>()? {
        0 => Ok(ExampleEnum::Ping),
        1 => Ok(ExampleEnum::Temperature(reader.read()?)),
        2 => {
            let (lat, lon) = reader.read::<(i32, i32)>()?;
            Ok(ExampleEnum::Location(lat, lon))
        }
        3 => {
            let (time, message) = reader.read::<(i64, String)>()?;
            Ok(ExampleEnum::Log { time, message })
        }
        4 => Ok(ExampleEnum::EmptyTuple()),
        5 => Ok(ExampleEnum::EmptyTuple2(())),
        6 => Ok(ExampleEnum::EmptyStruct {}),
        _ => Err(ToFromByteError::InvalidValue),
    }
}

fn enum_to_bytes(value: &ExampleEnum) -> Result<Vec<u8>, ToFromByteError> {
    let mut bytes = vec![0u8; enum_byte_count(value)];
    let mut writer = BytesWriter::new(&mut bytes);
    write_enum(value, &mut writer)?;
    Ok(bytes)
}

fn enum_from_bytes(bytes: &[u8]) -> Result<ExampleEnum, ToFromByteError> {
    let mut reader = BytesReader::new(bytes);
    let value = read_enum(&mut reader)?;
    if reader.pos < bytes.len() {
        return Err(ToFromByteError::TrailingBytes);
    }
    Ok(value)
}

#[derive(Debug, PartialEq)]
struct ExampleStruct {
    uuid: u128,
    timestamp: i64,
    name: String,
    readings: Vec<ExampleEnum>,
}

fn struct_to_bytes(value: &ExampleStruct) -> Result<Vec<u8>, ToFromByteError> {
    let size = value.uuid.byte_count()
        + value.timestamp.byte_count()
        + value.name.byte_count()
        + 4
        + value.readings.iter().map(enum_byte_count).sum::<usize>();
    let mut bytes = vec![0u8; size];
    let mut writer = BytesWriter::new(&mut bytes);
    writer.write(&(value.uuid, value.timestamp, value.name.as_str(), value.readings.len() as u32))?;
    for reading in &value.readings {
        write_enum(reading, &mut writer)?;
    }
    Ok(bytes)
}

fn struct_from_bytes(bytes: &[u8]) -> Result<ExampleStruct, ToFromByteError> {
    let mut reader = BytesReader::new(bytes);
    let (uuid, timestamp, name, count) = reader.read::<(u128, i64, String, u32)>()?;
    let mut readings = Vec::new();
    for _ in 0..count {
        readings.push(read_enum(&mut reader)?);
    }
    if reader.pos < bytes.len() {
        return Err(ToFromByteError::TrailingBytes);
    }
    Ok(ExampleStruct { uuid, timestamp, name, readings })
}

#[test]
fn test_struct_macro() {
    let expected = ExampleStruct {
        uuid: 0,
        timestamp: 1,
        name: "example".to_string(),
        readings: vec![
            ExampleEnum::Ping,
            ExampleEnum::Temperature(1),
            ExampleEnum::Location(0, 1),
            ExampleEnum::Log { time: 0, message: "Logging...".to_string() },
            ExampleEnum::EmptyTuple(),
            ExampleEnum::EmptyTuple2(()),
            ExampleEnum::EmptyStruct {},
        ],
    };
    let bytes = struct_to_bytes(&expected).unwrap();
    let actual: ExampleStruct = struct_from_bytes(&bytes).unwrap();

    assert_eq!(expected, actual);
}

#[test]
fn test_enum_macro() {
    let expected = ExampleEnum::Ping;
    assert_eq!(expected, enum_from_bytes(&enum_to_bytes(&expected).unwrap()).unwrap());

    let expected = ExampleEnum::Temperature(30);
    assert_eq!(expected, enum_from_bytes(&enum_to_bytes(&expected).unwrap()).unwrap());

    let expected = ExampleEnum::Location(123_000, 124_000);
    assert_eq!(expected, enum_from_bytes(&enum_to_bytes(&expected).unwrap()).unwrap());

    let expected = ExampleEnum::Log { time: 42, message: "Message".to_string() };
    assert_eq!(expected, enum_from_bytes(&enum_to_bytes(&expected).unwrap()).unwrap());
}

#[test]
fn test_macros_error() {
    let result = enum_to_bytes(&ExampleEnum::Invalid);
    assert!(result.is_err());

    let result = enum_from_bytes(&[u8::MAX, u8::MAX, u8::MAX, u8::MAX]);
    assert!(result.is_err());

    let tag_and_field = to_bytes(&(1u8, 30i16)).unwrap();
    assert_eq!(from_bytes::<(u8, i16)>(&tag_and_field).unwrap(), (1, 30));
}
