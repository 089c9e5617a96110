//! Minimal, manual, big-endian binary serialization.
//!
//! A type describes its wire format by implementing [`ToFromBytes`]: how many bytes a
//! value takes, how to write it through a [`BytesWriter`], and how to read it back
//! through a [`BytesReader`]. Integers are fixed-width and big-endian, strings and
//! sequences carry a 4-byte length prefix, optional values a 1-byte tag, and tuples
//! are their elements back to back.
//!
//! Each format is stated as spec functions (`ToFromBytes::encoding`,
//! `ToFromBytes::parse`), and every encoder and decoder is proved against them. The
//! laws that follow for every format (round trip, truncation, trailing bytes,
//! ceilings) are proof functions in [`laws`].
pub mod api;
pub mod bigendian;
pub mod codec;
pub mod containers;
pub mod error;
pub mod laws;
pub mod primitives;
pub mod reader;
pub mod sequences;
pub mod strings;
pub mod tuples;
pub mod writer;

pub use api::{from_bytes, read_bytes, to_bytes, write_bytes};
pub use codec::ToFromBytes;
pub use error::ToFromByteError;
pub use reader::BytesReader;
pub use writer::BytesWriter;
