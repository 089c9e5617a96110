use vstd::prelude::*;

use crate::codec::ToFromBytes;
use crate::error::ToFromByteError;
use crate::reader::BytesReader;
use crate::writer::BytesWriter;

verus! {

/// What encoding `m` gives: its wire value, or `MaxBytesExceeded` where that is larger
/// than the ceiling. (A value within its ceiling is always encodable:
/// `ToFromBytes::lemma_unencodable_is_large`.)
pub open spec fn encode_result<'a, T: ToFromBytes<'a>>(m: T::Model) -> Result<
    Seq<u8>,
    ToFromByteError,
> {
    if T::encoding(m).len() > T::spec_max_bytes() {
        Err(ToFromByteError::MaxBytesExceeded)
    } else {
        Ok(T::encoding(m))
    }
}

/// A value within its ceiling is encodable.
pub proof fn lemma_within_ceiling_encodable<'a, T: ToFromBytes<'a>>(m: T::Model)
    requires
        T::encoding(m).len() <= T::spec_max_bytes(),
    ensures
        T::encodable(m),
{
    T::lemma_max_bytes_bounded();
    if !T::encodable(m) {
        T::lemma_unencodable_is_large(m);
    }
}

/// What decoding a whole buffer gives: a buffer longer than the ceiling is refused,
/// and the value must use every byte.
pub open spec fn decode_exact_result<'a, T: ToFromBytes<'a>>(bytes: Seq<u8>) -> Result<
    T::Model,
    ToFromByteError,
> {
    if bytes.len() > T::spec_max_bytes() {
        Err(ToFromByteError::MaxBytesExceeded)
    } else {
        match T::parse(bytes) {
            Ok((m, n)) => if n < bytes.len() {
                Err(ToFromByteError::TrailingBytes)
            } else {
                Ok(m)
            },
            Err(e) => Err(e),
        }
    }
}

/// What decoding from the front of a buffer gives: the value and the bytes it took,
/// where these are within the ceiling.
pub open spec fn decode_prefix_result<'a, T: ToFromBytes<'a>>(bytes: Seq<u8>) -> Result<
    (T::Model, nat),
    ToFromByteError,
> {
    match T::parse(bytes) {
        Ok((m, n)) => if n > T::spec_max_bytes() {
            Err(ToFromByteError::MaxBytesExceeded)
        } else {
            Ok((m, n))
        },
        Err(e) => Err(e),
    }
}

/// Decodes a value that fills `bytes` exactly.
///
/// A buffer longer than the ceiling of `T` is refused before decoding with
/// `MaxBytesExceeded`; bytes left over after the value give `TrailingBytes`.
pub fn from_bytes<'a, T: ToFromBytes<'a>>(bytes: &'a [u8]) -> (r: Result<T, ToFromByteError>)
    ensures
        match decode_exact_result::<T>(bytes@) {
            Ok(m) => r matches Ok(v) && v.model() == m,
            Err(e) => r == Err::<T, ToFromByteError>(e),
        },
{
    if bytes.len() > T::max_bytes() {
        return Err(ToFromByteError::MaxBytesExceeded);
    }
    let (value, pos) = read_bytes::<T>(bytes)?;
    if pos < bytes.len() {
        return Err(ToFromByteError::TrailingBytes);
    }
    Ok(value)
}

/// Decodes a value from the front of `buffer`; returns it with the number of bytes it
/// took. Bytes after the value are left alone, so that several values can be read from
/// one buffer; a value larger than the ceiling of `T` gives `MaxBytesExceeded`.
pub fn read_bytes<'a, T: ToFromBytes<'a>>(buffer: &'a [u8]) -> (r: Result<
    (T, usize),
    ToFromByteError,
>)
    ensures
        T::parse(buffer@) matches Ok((m, n)) ==> n <= buffer@.len(),
        match decode_prefix_result::<T>(buffer@) {
            Ok((m, n)) => r matches Ok((v, p)) && v.model() == m && p == n,
            Err(e) => r == Err::<(T, usize), ToFromByteError>(e),
        },
{
    let mut reader = BytesReader::new(buffer);
    let value = reader.read::<T>()?;
    if reader.pos > T::max_bytes() {
        return Err(ToFromByteError::MaxBytesExceeded);
    }
    Ok((value, reader.pos))
}

/// Encodes `value` at the start of `buffer`; returns the number of bytes written,
/// which is exactly `value.byte_count()`.
///
/// Before any byte is written, a buffer too small for the value gives `NotEnoughBytes`,
/// and otherwise a value larger than the ceiling of `T` gives `MaxBytesExceeded`; in
/// both cases the buffer is left as it was. (The buffer's length is bounded by
/// `isize::MAX`, as that of every Rust byte slice.)
pub fn write_bytes<'a, T: ToFromBytes<'a>>(value: &T, buffer: &mut [u8]) -> (r: Result<
    usize,
    ToFromByteError,
>)
    requires
        old(buffer)@.len() <= isize::MAX,
    ensures
        final(buffer)@.len() == old(buffer)@.len(),
        ({
            let bytes = T::encoding(value.model());
            &&& bytes.len() > old(buffer)@.len() ==> r == Err::<usize, ToFromByteError>(
                ToFromByteError::NotEnoughBytes,
            ) && final(buffer)@ == old(buffer)@
            &&& bytes.len() <= old(buffer)@.len() && bytes.len() > T::spec_max_bytes() ==> r
                == Err::<usize, ToFromByteError>(ToFromByteError::MaxBytesExceeded)
                && final(buffer)@ == old(buffer)@
            &&& bytes.len() <= old(buffer)@.len() && bytes.len() <= T::spec_max_bytes() ==> r
                == Ok::<usize, ToFromByteError>(bytes.len() as usize) && final(buffer)@ == bytes
                + old(buffer)@.skip(bytes.len() as int)
        }),
{
    proof {
        T::lemma_max_bytes_bounded();
    }
    let size = value.byte_count();
    if buffer.len() < size {
        return Err(ToFromByteError::NotEnoughBytes);
    }
    if size > T::max_bytes() {
        return Err(ToFromByteError::MaxBytesExceeded);
    }
    proof {
        lemma_within_ceiling_encodable::<T>(value.model());
    }
    let mut writer = BytesWriter::new(buffer);
    let ghost w0 = writer;
    writer.write(value)?;
    assert(writer.data@ =~= T::encoding(value.model()) + w0.data@.skip(
        T::encoding(value.model()).len() as int,
    ));
    Ok(writer.pos)
}

/// Encodes `value` into a newly allocated vector of exactly its size.
///
/// A value larger than the ceiling of `T` gives `MaxBytesExceeded` before anything is
/// allocated.
pub fn to_bytes<'a, T: ToFromBytes<'a>>(value: &T) -> (r: Result<Vec<u8>, ToFromByteError>)
    ensures
        match encode_result::<T>(value.model()) {
            Ok(bytes) => r matches Ok(out) && out@ == bytes,
            Err(e) => r == Err::<Vec<u8>, ToFromByteError>(e),
        },
{
    proof {
        T::lemma_max_bytes_bounded();
    }
    let size = value.byte_count();
    if size > T::max_bytes() {
        return Err(ToFromByteError::MaxBytesExceeded);
    }
    let mut bytes: Vec<u8> = vec![0u8; size];
    write_bytes(value, bytes.as_mut_slice())?;
    assert(bytes@ =~= T::encoding(value.model()));
    Ok(bytes)
}

} // verus!
