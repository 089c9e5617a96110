use minbin::{from_bytes, read_bytes, to_bytes, write_bytes, ToFromBytes};

#[derive(Debug, PartialEq)]
struct ExampleStruct<'a> {
    uuid: u128,
    timestamp: i64,
    name: &'a str,
    reading: u16,
}

impl<'a> ExampleStruct<'a> {
    /// The fields in their wire order.
    fn fields(&self) -> (u128, i64, &'a str, u16) {
        (self.uuid, self.timestamp, self.name, self.reading)
    }

    fn from_fields((uuid, timestamp, name, reading): (u128, i64, &'a str, u16)) -> Self {
        ExampleStruct { uuid, timestamp, name, reading }
    }

    fn byte_count(&self) -> usize {
        self.uuid.byte_count() + self.timestamp.byte_count() + self.name.byte_count() + self.reading.byte_count()
    }
}

#[test]
fn structs_test_struct_stack() {
    let expected = ExampleStruct { uuid: 0, timestamp: 1, name: "example", reading: 2 };

    let mut buffer = [0u8; 1024];
    let write_pos = write_bytes(&expected.fields(), &mut buffer).unwrap();

    assert_eq!(expected.byte_count(), write_pos);

    let (fields, read_pos) = read_bytes::<(u128, i64, &str, u16)>(&buffer).unwrap();
    let actual = ExampleStruct::from_fields(fields);

    assert_eq!(expected.byte_count(), read_pos);
    assert_eq!(expected.uuid, actual.uuid);
    assert_eq!(expected.timestamp, actual.timestamp);
    assert_eq!(expected.name, actual.name);
    assert_eq!(expected.reading, actual.reading);
}

#[test]
fn structs_test_struct_heap() {
    let expected = ExampleStruct { uuid: 0, timestamp: 1, name: "example", reading: 2 };

    let mut buffer = vec![0u8; expected.byte_count()];
    let write_pos = write_bytes(&expected.fields(), &mut buffer).unwrap();

    assert_eq!(expected.byte_count(), write_pos);

    let (fields, read_pos) = read_bytes::<(u128, i64, &str, u16)>(&buffer).unwrap();
    let actual = ExampleStruct::from_fields(fields);

    assert_eq!(expected.byte_count(), read_pos);
    assert_eq!(expected, actual);
}

#[test]
fn test_struct_stack() {
    let expected = ExampleStruct { uuid: 0, timestamp: 1, name: "example", reading: 2 };

    let mut buffer = [0u8; 1024];
    let write_pos = write_bytes(&expected.fields(), &mut buffer).unwrap();
    let (fields, read_pos) = read_bytes::<(u128, i64, &str, u16)>(&buffer[..write_pos]).unwrap();
    let actual = ExampleStruct::from_fields(fields);

    assert_eq!(expected.byte_count(), read_pos);
    assert_eq!(expected.uuid, actual.uuid);
    assert_eq!(expected.timestamp, actual.timestamp);
    assert_eq!(expected.name, actual.name);
    assert_eq!(expected.reading, actual.reading);
}

#[test]
fn test_struct_heap() {
    let expected = ExampleStruct { uuid: 0, timestamp: 1, name: "example", reading: 2 };

    let mut buffer = vec![0u8; expected.byte_count()];
    let write_pos = write_bytes(&expected.fields(), &mut buffer).unwrap();
    let (fields, read_pos) = read_bytes::<(u128, i64, &str, u16)>(&buffer[..write_pos]).unwrap();
    let actual = ExampleStruct::from_fields(fields);

    assert_eq!(expected.byte_count(), read_pos);
    assert_eq!(expected.uuid, actual.uuid);
    assert_eq!(expected.timestamp, actual.timestamp);
    assert_eq!(expected.name, actual.name);
    assert_eq!(expected.reading, actual.reading);
}

struct OwnedStruct {
    uuid: u128,
    timestamp: i64,
    name: String,
    readings: Vec<u16>,
}

#[test]
fn test_struct() {
    let expected = OwnedStruct { uuid: 0, timestamp: 1, name: "example".to_string(), readings: vec![1, 2, 3, 4] };

    let bytes = to_bytes(&(expected.uuid, expected.timestamp, expected.name.clone(), expected.readings.clone())).unwrap();
    let (uuid, timestamp, name, readings) = from_bytes::<(u128, i64, String, Vec<u16>)>(&bytes).unwrap();
    let actual = OwnedStruct { uuid, timestamp, name, readings };

    assert_eq!(expected.uuid, actual.uuid);
    assert_eq!(expected.timestamp, actual.timestamp);
    assert_eq!(expected.name, actual.name);
    assert_eq!(expected.readings, actual.readings);
}
