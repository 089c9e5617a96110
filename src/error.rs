use vstd::prelude::*;

verus! {

/// Why an encode or a decode failed. Errors carry no payload and are freely copied.
#[derive(Debug, Clone, Copy, PartialEq, Eq, Structural)]
pub enum ToFromByteError {
    /// The buffer does not hold, or has no room for, the bytes the operation needs.
    NotEnoughBytes,
    /// A value was decoded, but the buffer holds more bytes after it.
    TrailingBytes,
    /// The value is larger than the ceiling of its type.
    MaxBytesExceeded,
    /// The bytes do not form a value of the type (a bad tag, a bad boolean, invalid UTF-8),
    /// or a length does not fit the 4-byte prefix.
    InvalidValue,
}

impl ToFromByteError {
    /// A short lower-case description of the error.
    pub fn message(&self) -> (r: &'static str)
        ensures
            r@ == error_message(*self),
    {
        match self {
            ToFromByteError::NotEnoughBytes => "not enough bytes",
            ToFromByteError::TrailingBytes => "trailing bytes",
            ToFromByteError::MaxBytesExceeded => "max bytes exceeded",
            ToFromByteError::InvalidValue => "invalid value",
        }
    }
}

/// The description of each error.
pub open spec fn error_message(e: ToFromByteError) -> Seq<char> {
    match e {
        ToFromByteError::NotEnoughBytes => "not enough bytes"@,
        ToFromByteError::TrailingBytes => "trailing bytes"@,
        ToFromByteError::MaxBytesExceeded => "max bytes exceeded"@,
        ToFromByteError::InvalidValue => "invalid value"@,
    }
}

} // verus!
