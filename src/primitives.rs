use vstd::prelude::*;

use crate::bigendian::{
    be_bytes, be_value, from_twos_complement, lemma_be_round_trip, lemma_be_value_bound,
    lemma_pow256_values, lemma_twos_complement_round_trip, pow256, read_uint, twos_complement,
    write_uint,
};
use crate::codec::ToFromBytes;
use crate::error::ToFromByteError;
use crate::reader::BytesReader;
use crate::writer::BytesWriter;

verus! {

/// What decoding a fixed-width number reads: the first `width` bytes as a big-endian
/// number, or `NotEnoughBytes`.
pub open spec fn parse_uint(data: Seq<u8>, width: nat) -> Result<(nat, nat), ToFromByteError> {
    if data.len() < width {
        Err(ToFromByteError::NotEnoughBytes)
    } else {
        Ok((be_value(data.take(width as int)), width))
    }
}

proof fn lemma_parse_uint_encoding(v: nat, width: nat, rest: Seq<u8>)
    requires
        v < pow256(width),
    ensures
        parse_uint(be_bytes(v, width) + rest, width) == Ok::<(nat, nat), ToFromByteError>(
            (v, width),
        ),
{
    lemma_be_round_trip(v, width);
    assert((be_bytes(v, width) + rest).take(width as int) =~= be_bytes(v, width));
}

/// `u8`: 1 byte, big-endian.
impl<'a> ToFromBytes<'a> for u8 {
    type Model = u8;

    open spec fn model(&self) -> u8 {
        *self
    }

    open spec fn spec_max_bytes() -> usize {
        1
    }

    open spec fn encodable(m: u8) -> bool {
        true
    }

    open spec fn encoding(m: u8) -> Seq<u8> {
        be_bytes(m as nat, 1)
    }

    open spec fn parse(data: Seq<u8>) -> Result<(u8, nat), ToFromByteError> {
        match parse_uint(data, 1) {
            Ok((u, n)) => Ok((u as u8, n)),
            Err(e) => Err(e),
        }
    }

    proof fn lemma_max_bytes_bounded() {
    }

    proof fn lemma_encoding_nonempty(m: u8) {
    }

    proof fn lemma_unencodable_is_large(m: u8) {
    }

    proof fn lemma_parse_encoding(m: u8, rest: Seq<u8>) {
        lemma_pow256_values();
        lemma_parse_uint_encoding(m as nat, 1, rest);
    }

    proof fn lemma_parse_truncated(m: u8, n: nat) {
    }

    fn max_bytes() -> (r: usize) {
        1
    }

    fn to_bytes(&self, writer: &mut BytesWriter<'_>) -> (r: Result<(), ToFromByteError>) {
        proof {
            lemma_pow256_values();
        }
        let u: u128 = *self as u128;
        write_uint(writer, u, 1)
    }

    fn from_bytes(reader: &mut BytesReader<'a>) -> (r: Result<(u8, usize), ToFromByteError>) {
        let u = read_uint(reader, 1)?;
        proof {
            lemma_pow256_values();
            lemma_be_value_bound(old(reader).remaining().take(1));
        }
        let value: u8 = u as u8;
        Ok((value, reader.pos))
    }

    fn byte_count(&self) -> (r: usize) {
        1
    }
}

/// `i8`: 1 byte, big-endian, two's complement.
impl<'a> ToFromBytes<'a> for i8 {
    type Model = i8;

    open spec fn model(&self) -> i8 {
        *self
    }

    open spec fn spec_max_bytes() -> usize {
        1
    }

    open spec fn encodable(m: i8) -> bool {
        true
    }

    open spec fn encoding(m: i8) -> Seq<u8> {
        be_bytes(twos_complement(m as int, 1), 1)
    }

    open spec fn parse(data: Seq<u8>) -> Result<(i8, nat), ToFromByteError> {
        match parse_uint(data, 1) {
            Ok((u, n)) => Ok((from_twos_complement(u, 1) as i8, n)),
            Err(e) => Err(e),
        }
    }

    proof fn lemma_max_bytes_bounded() {
    }

    proof fn lemma_encoding_nonempty(m: i8) {
    }

    proof fn lemma_unencodable_is_large(m: i8) {
    }

    proof fn lemma_parse_encoding(m: i8, rest: Seq<u8>) {
        lemma_pow256_values();
        lemma_twos_complement_round_trip(m as int, 1);
        lemma_parse_uint_encoding(twos_complement(m as int, 1), 1, rest);
    }

    proof fn lemma_parse_truncated(m: i8, n: nat) {
    }

    fn max_bytes() -> (r: usize) {
        1
    }

    fn to_bytes(&self, writer: &mut BytesWriter<'_>) -> (r: Result<(), ToFromByteError>) {
        proof {
            lemma_pow256_values();
        }
        let u: u128 = if *self < 0 {
            (*self as i128 + 0x100) as u128
        } else {
            *self as u128
        };
        write_uint(writer, u, 1)
    }

    fn from_bytes(reader: &mut BytesReader<'a>) -> (r: Result<(i8, usize), ToFromByteError>) {
        let u = read_uint(reader, 1)?;
        proof {
            lemma_pow256_values();
            lemma_be_value_bound(old(reader).remaining().take(1));
        }
        let value: i8 = if u >= 0x100 / 2 {
            (u as i128 - 0x100) as i8
        } else {
            u as i8
        };
        Ok((value, reader.pos))
    }

    fn byte_count(&self) -> (r: usize) {
        1
    }
}

/// `u16`: 2 bytes, big-endian.
impl<'a> ToFromBytes<'a> for u16 {
    type Model = u16;

    open spec fn model(&self) -> u16 {
        *self
    }

    open spec fn spec_max_bytes() -> usize {
        2
    }

    open spec fn encodable(m: u16) -> bool {
        true
    }

    open spec fn encoding(m: u16) -> Seq<u8> {
        be_bytes(m as nat, 2)
    }

    open spec fn parse(data: Seq<u8>) -> Result<(u16, nat), ToFromByteError> {
        match parse_uint(data, 2) {
            Ok((u, n)) => Ok((u as u16, n)),
            Err(e) => Err(e),
        }
    }

    proof fn lemma_max_bytes_bounded() {
    }

    proof fn lemma_encoding_nonempty(m: u16) {
    }

    proof fn lemma_unencodable_is_large(m: u16) {
    }

    proof fn lemma_parse_encoding(m: u16, rest: Seq<u8>) {
        lemma_pow256_values();
        lemma_parse_uint_encoding(m as nat, 2, rest);
    }

    proof fn lemma_parse_truncated(m: u16, n: nat) {
    }

    fn max_bytes() -> (r: usize) {
        2
    }

    fn to_bytes(&self, writer: &mut BytesWriter<'_>) -> (r: Result<(), ToFromByteError>) {
        proof {
            lemma_pow256_values();
        }
        let u: u128 = *self as u128;
        write_uint(writer, u, 2)
    }

    fn from_bytes(reader: &mut BytesReader<'a>) -> (r: Result<(u16, usize), ToFromByteError>) {
        let u = read_uint(reader, 2)?;
        proof {
            lemma_pow256_values();
            lemma_be_value_bound(old(reader).remaining().take(2));
        }
        let value: u16 = u as u16;
        Ok((value, reader.pos))
    }

    fn byte_count(&self) -> (r: usize) {
        2
    }
}

/// `i16`: 2 bytes, big-endian, two's complement.
impl<'a> ToFromBytes<'a> for i16 {
    type Model = i16;

    open spec fn model(&self) -> i16 {
        *self
    }

    open spec fn spec_max_bytes() -> usize {
        2
    }

    open spec fn encodable(m: i16) -> bool {
        true
    }

    open spec fn encoding(m: i16) -> Seq<u8> {
        be_bytes(twos_complement(m as int, 2), 2)
    }

    open spec fn parse(data: Seq<u8>) -> Result<(i16, nat), ToFromByteError> {
        match parse_uint(data, 2) {
            Ok((u, n)) => Ok((from_twos_complement(u, 2) as i16, n)),
            Err(e) => Err(e),
        }
    }

    proof fn lemma_max_bytes_bounded() {
    }

    proof fn lemma_encoding_nonempty(m: i16) {
    }

    proof fn lemma_unencodable_is_large(m: i16) {
    }

    proof fn lemma_parse_encoding(m: i16, rest: Seq<u8>) {
        lemma_pow256_values();
        lemma_twos_complement_round_trip(m as int, 2);
        lemma_parse_uint_encoding(twos_complement(m as int, 2), 2, rest);
    }

    proof fn lemma_parse_truncated(m: i16, n: nat) {
    }

    fn max_bytes() -> (r: usize) {
        2
    }

    fn to_bytes(&self, writer: &mut BytesWriter<'_>) -> (r: Result<(), ToFromByteError>) {
        proof {
            lemma_pow256_values();
        }
        let u: u128 = if *self < 0 {
            (*self as i128 + 0x1_0000) as u128
        } else {
            *self as u128
        };
        write_uint(writer, u, 2)
    }

    fn from_bytes(reader: &mut BytesReader<'a>) -> (r: Result<(i16, usize), ToFromByteError>) {
        let u = read_uint(reader, 2)?;
        proof {
            lemma_pow256_values();
            lemma_be_value_bound(old(reader).remaining().take(2));
        }
        let value: i16 = if u >= 0x1_0000 / 2 {
            (u as i128 - 0x1_0000) as i16
        } else {
            u as i16
        };
        Ok((value, reader.pos))
    }

    fn byte_count(&self) -> (r: usize) {
        2
    }
}

/// `u32`: 4 bytes, big-endian.
impl<'a> ToFromBytes<'a> for u32 {
    type Model = u32;

    open spec fn model(&self) -> u32 {
        *self
    }

    open spec fn spec_max_bytes() -> usize {
        4
    }

    open spec fn encodable(m: u32) -> bool {
        true
    }

    open spec fn encoding(m: u32) -> Seq<u8> {
        be_bytes(m as nat, 4)
    }

    open spec fn parse(data: Seq<u8>) -> Result<(u32, nat), ToFromByteError> {
        match parse_uint(data, 4) {
            Ok((u, n)) => Ok((u as u32, n)),
            Err(e) => Err(e),
        }
    }

    proof fn lemma_max_bytes_bounded() {
    }

    proof fn lemma_encoding_nonempty(m: u32) {
    }

    proof fn lemma_unencodable_is_large(m: u32) {
    }

    proof fn lemma_parse_encoding(m: u32, rest: Seq<u8>) {
        lemma_pow256_values();
        lemma_parse_uint_encoding(m as nat, 4, rest);
    }

    proof fn lemma_parse_truncated(m: u32, n: nat) {
    }

    fn max_bytes() -> (r: usize) {
        4
    }

    fn to_bytes(&self, writer: &mut BytesWriter<'_>) -> (r: Result<(), ToFromByteError>) {
        proof {
            lemma_pow256_values();
        }
        let u: u128 = *self as u128;
        write_uint(writer, u, 4)
    }

    fn from_bytes(reader: &mut BytesReader<'a>) -> (r: Result<(u32, usize), ToFromByteError>) {
        let u = read_uint(reader, 4)?;
        proof {
            lemma_pow256_values();
            lemma_be_value_bound(old(reader).remaining().take(4));
        }
        let value: u32 = u as u32;
        Ok((value, reader.pos))
    }

    fn byte_count(&self) -> (r: usize) {
        4
    }
}

/// `i32`: 4 bytes, big-endian, two's complement.
impl<'a> ToFromBytes<'a> for i32 {
    type Model = i32;

    open spec fn model(&self) -> i32 {
        *self
    }

    open spec fn spec_max_bytes() -> usize {
        4
    }

    open spec fn encodable(m: i32) -> bool {
        true
    }

    open spec fn encoding(m: i32) -> Seq<u8> {
        be_bytes(twos_complement(m as int, 4), 4)
    }

    open spec fn parse(data: Seq<u8>) -> Result<(i32, nat), ToFromByteError> {
        match parse_uint(data, 4) {
            Ok((u, n)) => Ok((from_twos_complement(u, 4) as i32, n)),
            Err(e) => Err(e),
        }
    }

    proof fn lemma_max_bytes_bounded() {
    }

    proof fn lemma_encoding_nonempty(m: i32) {
    }

    proof fn lemma_unencodable_is_large(m: i32) {
    }

    proof fn lemma_parse_encoding(m: i32, rest: Seq<u8>) {
        lemma_pow256_values();
        lemma_twos_complement_round_trip(m as int, 4);
        lemma_parse_uint_encoding(twos_complement(m as int, 4), 4, rest);
    }

    proof fn lemma_parse_truncated(m: i32, n: nat) {
    }

    fn max_bytes() -> (r: usize) {
        4
    }

    fn to_bytes(&self, writer: &mut BytesWriter<'_>) -> (r: Result<(), ToFromByteError>) {
        proof {
            lemma_pow256_values();
        }
        let u: u128 = if *self < 0 {
            (*self as i128 + 0x1_0000_0000) as u128
        } else {
            *self as u128
        };
        write_uint(writer, u, 4)
    }

    fn from_bytes(reader: &mut BytesReader<'a>) -> (r: Result<(i32, usize), ToFromByteError>) {
        let u = read_uint(reader, 4)?;
        proof {
            lemma_pow256_values();
            lemma_be_value_bound(old(reader).remaining().take(4));
        }
        let value: i32 = if u >= 0x1_0000_0000 / 2 {
            (u as i128 - 0x1_0000_0000) as i32
        } else {
            u as i32
        };
        Ok((value, reader.pos))
    }

    fn byte_count(&self) -> (r: usize) {
        4
    }
}

/// `u64`: 8 bytes, big-endian.
impl<'a> ToFromBytes<'a> for u64 {
    type Model = u64;

    open spec fn model(&self) -> u64 {
        *self
    }

    open spec fn spec_max_bytes() -> usize {
        8
    }

    open spec fn encodable(m: u64) -> bool {
        true
    }

    open spec fn encoding(m: u64) -> Seq<u8> {
        be_bytes(m as nat, 8)
    }

    open spec fn parse(data: Seq<u8>) -> Result<(u64, nat), ToFromByteError> {
        match parse_uint(data, 8) {
            Ok((u, n)) => Ok((u as u64, n)),
            Err(e) => Err(e),
        }
    }

    proof fn lemma_max_bytes_bounded() {
    }

    proof fn lemma_encoding_nonempty(m: u64) {
    }

    proof fn lemma_unencodable_is_large(m: u64) {
    }

    proof fn lemma_parse_encoding(m: u64, rest: Seq<u8>) {
        lemma_pow256_values();
        lemma_parse_uint_encoding(m as nat, 8, rest);
    }

    proof fn lemma_parse_truncated(m: u64, n: nat) {
    }

    fn max_bytes() -> (r: usize) {
        8
    }

    fn to_bytes(&self, writer: &mut BytesWriter<'_>) -> (r: Result<(), ToFromByteError>) {
        proof {
            lemma_pow256_values();
        }
        let u: u128 = *self as u128;
        write_uint(writer, u, 8)
    }

    fn from_bytes(reader: &mut BytesReader<'a>) -> (r: Result<(u64, usize), ToFromByteError>) {
        let u = read_uint(reader, 8)?;
        proof {
            lemma_pow256_values();
            lemma_be_value_bound(old(reader).remaining().take(8));
        }
        let value: u64 = u as u64;
        Ok((value, reader.pos))
    }

    fn byte_count(&self) -> (r: usize) {
        8
    }
}

/// `i64`: 8 bytes, big-endian, two's complement.
impl<'a> ToFromBytes<'a> for i64 {
    type Model = i64;

    open spec fn model(&self) -> i64 {
        *self
    }

    open spec fn spec_max_bytes() -> usize {
        8
    }

    open spec fn encodable(m: i64) -> bool {
        true
    }

    open spec fn encoding(m: i64) -> Seq<u8> {
        be_bytes(twos_complement(m as int, 8), 8)
    }

    open spec fn parse(data: Seq<u8>) -> Result<(i64, nat), ToFromByteError> {
        match parse_uint(data, 8) {
            Ok((u, n)) => Ok((from_twos_complement(u, 8) as i64, n)),
            Err(e) => Err(e),
        }
    }

    proof fn lemma_max_bytes_bounded() {
    }

    proof fn lemma_encoding_nonempty(m: i64) {
    }

    proof fn lemma_unencodable_is_large(m: i64) {
    }

    proof fn lemma_parse_encoding(m: i64, rest: Seq<u8>) {
        lemma_pow256_values();
        lemma_twos_complement_round_trip(m as int, 8);
        lemma_parse_uint_encoding(twos_complement(m as int, 8), 8, rest);
    }

    proof fn lemma_parse_truncated(m: i64, n: nat) {
    }

    fn max_bytes() -> (r: usize) {
        8
    }

    fn to_bytes(&self, writer: &mut BytesWriter<'_>) -> (r: Result<(), ToFromByteError>) {
        proof {
            lemma_pow256_values();
        }
        let u: u128 = if *self < 0 {
            (*self as i128 + 0x1_0000_0000_0000_0000) as u128
        } else {
            *self as u128
        };
        write_uint(writer, u, 8)
    }

    fn from_bytes(reader: &mut BytesReader<'a>) -> (r: Result<(i64, usize), ToFromByteError>) {
        let u = read_uint(reader, 8)?;
        proof {
            lemma_pow256_values();
            lemma_be_value_bound(old(reader).remaining().take(8));
        }
        let value: i64 = if u >= 0x1_0000_0000_0000_0000 / 2 {
            (u as i128 - 0x1_0000_0000_0000_0000) as i64
        } else {
            u as i64
        };
        Ok((value, reader.pos))
    }

    fn byte_count(&self) -> (r: usize) {
        8
    }
}

/// `u128`: 16 bytes, big-endian.
impl<'a> ToFromBytes<'a> for u128 {
    type Model = u128;

    open spec fn model(&self) -> u128 {
        *self
    }

    open spec fn spec_max_bytes() -> usize {
        16
    }

    open spec fn encodable(m: u128) -> bool {
        true
    }

    open spec fn encoding(m: u128) -> Seq<u8> {
        be_bytes(m as nat, 16)
    }

    open spec fn parse(data: Seq<u8>) -> Result<(u128, nat), ToFromByteError> {
        match parse_uint(data, 16) {
            Ok((u, n)) => Ok((u as u128, n)),
            Err(e) => Err(e),
        }
    }

    proof fn lemma_max_bytes_bounded() {
    }

    proof fn lemma_encoding_nonempty(m: u128) {
    }

    proof fn lemma_unencodable_is_large(m: u128) {
    }

    proof fn lemma_parse_encoding(m: u128, rest: Seq<u8>) {
        lemma_pow256_values();
        lemma_parse_uint_encoding(m as nat, 16, rest);
    }

    proof fn lemma_parse_truncated(m: u128, n: nat) {
    }

    fn max_bytes() -> (r: usize) {
        16
    }

    fn to_bytes(&self, writer: &mut BytesWriter<'_>) -> (r: Result<(), ToFromByteError>) {
        proof {
            lemma_pow256_values();
        }
        let u: u128 = *self as u128;
        write_uint(writer, u, 16)
    }

    fn from_bytes(reader: &mut BytesReader<'a>) -> (r: Result<(u128, usize), ToFromByteError>) {
        let u = read_uint(reader, 16)?;
        proof {
            lemma_pow256_values();
            lemma_be_value_bound(old(reader).remaining().take(16));
        }
        let value: u128 = u as u128;
        Ok((value, reader.pos))
    }

    fn byte_count(&self) -> (r: usize) {
        16
    }
}

/// `i128`: 16 bytes, big-endian, two's complement.
impl<'a> ToFromBytes<'a> for i128 {
    type Model = i128;

    open spec fn model(&self) -> i128 {
        *self
    }

    open spec fn spec_max_bytes() -> usize {
        16
    }

    open spec fn encodable(m: i128) -> bool {
        true
    }

    open spec fn encoding(m: i128) -> Seq<u8> {
        be_bytes(twos_complement(m as int, 16), 16)
    }

    open spec fn parse(data: Seq<u8>) -> Result<(i128, nat), ToFromByteError> {
        match parse_uint(data, 16) {
            Ok((u, n)) => Ok((from_twos_complement(u, 16) as i128, n)),
            Err(e) => Err(e),
        }
    }

    proof fn lemma_max_bytes_bounded() {
    }

    proof fn lemma_encoding_nonempty(m: i128) {
    }

    proof fn lemma_unencodable_is_large(m: i128) {
    }

    proof fn lemma_parse_encoding(m: i128, rest: Seq<u8>) {
        lemma_pow256_values();
        lemma_twos_complement_round_trip(m as int, 16);
        lemma_parse_uint_encoding(twos_complement(m as int, 16), 16, rest);
    }

    proof fn lemma_parse_truncated(m: i128, n: nat) {
    }

    fn max_bytes() -> (r: usize) {
        16
    }

    fn to_bytes(&self, writer: &mut BytesWriter<'_>) -> (r: Result<(), ToFromByteError>) {
        proof {
            lemma_pow256_values();
        }
        let u: u128 = if *self < 0 {
            ((*self + 1 + i128::MAX) as u128) + (i128::MAX as u128) + 1
        } else {
            *self as u128
        };
        write_uint(writer, u, 16)
    }

    fn from_bytes(reader: &mut BytesReader<'a>) -> (r: Result<(i128, usize), ToFromByteError>) {
        let u = read_uint(reader, 16)?;
        proof {
            lemma_pow256_values();
            lemma_be_value_bound(old(reader).remaining().take(16));
        }
        let value: i128 = if u > i128::MAX as u128 {
            ((u - (i128::MAX as u128) - 1) as i128) - i128::MAX - 1
        } else {
            u as i128
        };
        Ok((value, reader.pos))
    }

    fn byte_count(&self) -> (r: usize) {
        16
    }
}

/// `bool`: one byte, `0` or `1`; any other byte decodes to `InvalidValue`.
impl<'a> ToFromBytes<'a> for bool {
    type Model = bool;

    open spec fn model(&self) -> bool {
        *self
    }

    open spec fn spec_max_bytes() -> usize {
        1
    }

    open spec fn encodable(m: bool) -> bool {
        true
    }

    open spec fn encoding(m: bool) -> Seq<u8> {
        seq![if m { 1u8 } else { 0u8 }]
    }

    open spec fn parse(data: Seq<u8>) -> Result<(bool, nat), ToFromByteError> {
        if data.len() < 1 {
            Err(ToFromByteError::NotEnoughBytes)
        } else if data[0] == 0 {
            Ok((false, 1))
        } else if data[0] == 1 {
            Ok((true, 1))
        } else {
            Err(ToFromByteError::InvalidValue)
        }
    }

    proof fn lemma_max_bytes_bounded() {
    }

    proof fn lemma_encoding_nonempty(m: bool) {
    }

    proof fn lemma_unencodable_is_large(m: bool) {
    }

    proof fn lemma_parse_encoding(m: bool, rest: Seq<u8>) {
    }

    proof fn lemma_parse_truncated(m: bool, n: nat) {
    }

    fn max_bytes() -> (r: usize) {
        1
    }

    fn to_bytes(&self, writer: &mut BytesWriter<'_>) -> (r: Result<(), ToFromByteError>) {
        let u: u128 = if *self {
            1
        } else {
            0
        };
        proof {
            lemma_pow256_values();
            assert(be_bytes(u as nat, 1)[0] == ((u as nat / pow256(0)) % 256) as u8);
            assert(be_bytes(u as nat, 1) =~= Self::encoding(*self));
        }
        write_uint(writer, u, 1)
    }

    fn from_bytes(reader: &mut BytesReader<'a>) -> (r: Result<(bool, usize), ToFromByteError>) {
        let start_pos = reader.pos;
        let bytes = reader.read_bytes(1)?;
        let byte = bytes[0];
        if byte == 0 {
            Ok((false, reader.pos))
        } else if byte == 1 {
            Ok((true, reader.pos))
        } else {
            reader.pos = start_pos;
            Err(ToFromByteError::InvalidValue)
        }
    }

    fn byte_count(&self) -> (r: usize) {
        1
    }
}

} // verus!
