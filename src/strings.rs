use vstd::prelude::*;
use vstd::utf8::{decode_utf8, encode_utf8, encode_utf8_decode_utf8, encode_utf8_valid_utf8, valid_utf8};

use crate::bigendian::{
    be_bytes, be_value, lemma_be_round_trip, lemma_pow256_values, read_uint, write_uint,
};
use crate::codec::{size_or_max, ToFromBytes};
use crate::error::ToFromByteError;
use crate::reader::BytesReader;
use crate::writer::{lemma_overwrite_twice, BytesWriter};

verus! {

/// The ceiling on the size of an encoded string: 100 KiB, as UTF-8 validation is the
/// costliest decode step per byte.
pub const STRING_MAX_BYTES: usize = 102_400;

/// Whether the UTF-8 byte count of `cs` fits in the 4-byte prefix.
pub open spec fn string_encodable(cs: Seq<char>) -> bool {
    encode_utf8(cs).len() <= u32::MAX
}

/// The wire value of a string: its UTF-8 byte count in 4 bytes, then its UTF-8 bytes.
pub open spec fn string_encoding(cs: Seq<char>) -> Seq<u8> {
    be_bytes(encode_utf8(cs).len(), 4) + encode_utf8(cs)
}

/// What decoding a string reads: a 4-byte count and that many bytes, which must be
/// valid UTF-8.
pub open spec fn string_parse(data: Seq<u8>) -> Result<(Seq<char>, nat), ToFromByteError> {
    if data.len() < 4 {
        Err(ToFromByteError::NotEnoughBytes)
    } else {
        let len = be_value(data.take(4));
        if data.len() - 4 < len {
            Err(ToFromByteError::NotEnoughBytes)
        } else if valid_utf8(data.subrange(4, 4 + len as int)) {
            Ok((decode_utf8(data.subrange(4, 4 + len as int)), 4 + len))
        } else {
            Err(ToFromByteError::InvalidValue)
        }
    }
}

proof fn lemma_string_parse_encoding(cs: Seq<char>, rest: Seq<u8>)
    requires
        string_encodable(cs),
    ensures
        string_parse(string_encoding(cs) + rest) == Ok::<(Seq<char>, nat), ToFromByteError>(
            (cs, string_encoding(cs).len()),
        ),
{
    let bytes = encode_utf8(cs);
    let data = string_encoding(cs) + rest;
    lemma_pow256_values();
    lemma_be_round_trip(bytes.len(), 4);
    assert(data.take(4) =~= be_bytes(bytes.len(), 4));
    assert(data.subrange(4, 4 + bytes.len() as int) =~= bytes);
    encode_utf8_valid_utf8(cs);
    encode_utf8_decode_utf8(cs);
}

proof fn lemma_string_parse_truncated(cs: Seq<char>, n: nat)
    requires
        string_encodable(cs),
        n < string_encoding(cs).len(),
    ensures
        string_parse(string_encoding(cs).take(n as int)) == Err::<(Seq<char>, nat), ToFromByteError>(
            ToFromByteError::NotEnoughBytes,
        ),
{
    let bytes = encode_utf8(cs);
    let data = string_encoding(cs).take(n as int);
    lemma_pow256_values();
    lemma_be_round_trip(bytes.len(), 4);
    if n >= 4 {
        assert(data.take(4) =~= be_bytes(bytes.len(), 4));
    }
}

/// Relies on `core::str::from_utf8`: it accepts exactly the valid UTF-8 byte sequences,
/// and returns a string slice over the same bytes.
#[verifier::external_body]
fn str_from_utf8<'b>(bytes: &'b [u8]) -> (r: Option<&'b str>)
    ensures
        r is Some <==> valid_utf8(bytes@),
        r matches Some(s) ==> encode_utf8(s@) == bytes@,
{
    core::str::from_utf8(bytes).ok()
}

/// Writes the wire value of `s`.
fn write_str<'a>(s: &str, writer: &mut BytesWriter<'_>) -> (r: Result<(), ToFromByteError>)
    requires
        old(writer).wf(),
    ensures
        final(final(writer).data)@ == final(old(writer).data)@,
        crate::codec::encode_outcome(
            *old(writer),
            *final(writer),
            string_encodable(s@),
            string_encoding(s@),
            r,
        ),
{
    let bytes = s.as_bytes();
    let len = bytes.len();
    if len > u32::MAX as usize {
        return Err(ToFromByteError::InvalidValue);
    }
    let ghost w0 = *writer;
    proof {
        lemma_pow256_values();
    }
    write_uint(writer, len as u128, 4)?;
    let r = writer.write_bytes(bytes);
    proof {
        if r is Ok {
            lemma_overwrite_twice(
                w0.data@,
                w0.pos as int,
                be_bytes(len as nat, 4),
                encode_utf8(s@),
            );
        }
    }
    r
}

/// Reads a string slice borrowed from the reader's buffer.
fn read_str<'a>(reader: &mut BytesReader<'a>) -> (r: Result<(&'a str, usize), ToFromByteError>)
    requires
        old(reader).wf(),
    ensures
        final(reader).data == old(reader).data,
        final(reader).wf(),
        r is Err ==> final(reader).pos == old(reader).pos,
        match string_parse(old(reader).remaining()) {
            Ok((m, n)) => r matches Ok((v, p)) && v@ == m && p == old(reader).pos + n
                && final(reader).pos == p,
            Err(e) => r == Err::<(&'a str, usize), ToFromByteError>(e),
        },
{
    let ghost start = reader.remaining();
    let start_pos = reader.pos;
    let len = read_uint(reader, 4)?;
    proof {
        lemma_pow256_values();
        crate::bigendian::lemma_be_value_bound(start.take(4));
    }
    let bytes = match reader.read_bytes(len as usize) {
        Ok(bytes) => bytes,
        Err(e) => {
            reader.pos = start_pos;
            return Err(e);
        },
    };
    proof {
        assert(bytes@ =~= start.subrange(4, 4 + len as int));
    }
    match str_from_utf8(bytes) {
        Some(s) => {
            proof {
                encode_utf8_decode_utf8(s@);
            }
            Ok((s, reader.pos))
        },
        None => {
            reader.pos = start_pos;
            Err(ToFromByteError::InvalidValue)
        },
    }
}

/// The length of the wire value of `s`, saturated at `usize::MAX`.
fn str_byte_count(s: &str) -> (r: usize)
    ensures
        r == size_or_max(string_encoding(s@).len()),
{
    let len = s.as_bytes().len();
    assert(be_bytes(encode_utf8(s@).len(), 4).len() == 4);
    if len > usize::MAX - 4 {
        usize::MAX
    } else {
        4 + len
    }
}

/// Borrowed strings: decoding borrows the bytes from the buffer, without copying.
impl<'a> ToFromBytes<'a> for &'a str {
    type Model = Seq<char>;

    open spec fn model(&self) -> Seq<char> {
        self@
    }

    open spec fn spec_max_bytes() -> usize {
        STRING_MAX_BYTES
    }

    open spec fn encodable(m: Seq<char>) -> bool {
        string_encodable(m)
    }

    open spec fn encoding(m: Seq<char>) -> Seq<u8> {
        string_encoding(m)
    }

    open spec fn parse(data: Seq<u8>) -> Result<(Seq<char>, nat), ToFromByteError> {
        string_parse(data)
    }

    proof fn lemma_max_bytes_bounded() {
    }

    proof fn lemma_encoding_nonempty(m: Seq<char>) {
        assert(be_bytes(encode_utf8(m).len(), 4).len() == 4);
    }

    proof fn lemma_unencodable_is_large(m: Seq<char>) {
        assert(be_bytes(encode_utf8(m).len(), 4).len() == 4);
    }

    proof fn lemma_parse_encoding(m: Seq<char>, rest: Seq<u8>) {
        lemma_string_parse_encoding(m, rest);
    }

    proof fn lemma_parse_truncated(m: Seq<char>, n: nat) {
        lemma_string_parse_truncated(m, n);
    }

    fn max_bytes() -> (r: usize) {
        STRING_MAX_BYTES
    }

    fn to_bytes(&self, writer: &mut BytesWriter<'_>) -> (r: Result<(), ToFromByteError>) {
        write_str(self, writer)
    }

    fn from_bytes(reader: &mut BytesReader<'a>) -> (r: Result<(&'a str, usize), ToFromByteError>) {
        read_str(reader)
    }

    fn byte_count(&self) -> (r: usize) {
        str_byte_count(self)
    }
}

/// Owned strings: decoding copies the bytes out of the buffer.
impl<'a> ToFromBytes<'a> for String {
    type Model = Seq<char>;

    open spec fn model(&self) -> Seq<char> {
        self@
    }

    open spec fn spec_max_bytes() -> usize {
        STRING_MAX_BYTES
    }

    open spec fn encodable(m: Seq<char>) -> bool {
        string_encodable(m)
    }

    open spec fn encoding(m: Seq<char>) -> Seq<u8> {
        string_encoding(m)
    }

    open spec fn parse(data: Seq<u8>) -> Result<(Seq<char>, nat), ToFromByteError> {
        string_parse(data)
    }

    proof fn lemma_max_bytes_bounded() {
    }

    proof fn lemma_encoding_nonempty(m: Seq<char>) {
        assert(be_bytes(encode_utf8(m).len(), 4).len() == 4);
    }

    proof fn lemma_unencodable_is_large(m: Seq<char>) {
        assert(be_bytes(encode_utf8(m).len(), 4).len() == 4);
    }

    proof fn lemma_parse_encoding(m: Seq<char>, rest: Seq<u8>) {
        lemma_string_parse_encoding(m, rest);
    }

    proof fn lemma_parse_truncated(m: Seq<char>, n: nat) {
        lemma_string_parse_truncated(m, n);
    }

    fn max_bytes() -> (r: usize) {
        STRING_MAX_BYTES
    }

    fn to_bytes(&self, writer: &mut BytesWriter<'_>) -> (r: Result<(), ToFromByteError>) {
        write_str(self.as_str(), writer)
    }

    fn from_bytes(reader: &mut BytesReader<'a>) -> (r: Result<(String, usize), ToFromByteError>) {
        let (s, pos) = read_str(reader)?;
        Ok((s.to_owned(), pos))
    }

    fn byte_count(&self) -> (r: usize) {
        str_byte_count(self.as_str())
    }
}

} // verus!
