use vstd::prelude::*;

use crate::error::ToFromByteError;
use crate::reader::BytesReader;
use crate::writer::BytesWriter;

verus! {

/// No type's ceiling exceeds this bound (2 GiB less one byte), so that an encoding
/// within its ceiling fits in a buffer on every target.
pub const MAX_CEILING: usize = 0x7FFF_FFFF;

/// `n` where it fits in a `usize`, else `usize::MAX`.
pub open spec fn size_or_max(n: nat) -> usize {
    if n <= usize::MAX {
        n as usize
    } else {
        usize::MAX
    }
}

/// The sum of two sizes, each saturated at `usize::MAX`, saturated in turn.
pub fn add_sizes(a: usize, b: usize, Ghost(x): Ghost<nat>, Ghost(y): Ghost<nat>) -> (r: usize)
    requires
        a == size_or_max(x),
        b == size_or_max(y),
    ensures
        r == size_or_max(x + y),
{
    if a > usize::MAX - b {
        usize::MAX
    } else {
        a + b
    }
}

/// What a call of `to_bytes` did: `before` and `after` are the writer around the call,
/// `encodable` and `bytes` describe the value written.
///
/// On success exactly `bytes` went in at the position. `NotEnoughBytes` comes only
/// where `bytes` do not fit, `InvalidValue` only where a length does not fit its
/// prefix; a value that fits and is encodable is always written.
pub open spec fn encode_outcome<'a>(
    before: BytesWriter<'a>,
    after: BytesWriter<'a>,
    encodable: bool,
    bytes: Seq<u8>,
    r: Result<(), ToFromByteError>,
) -> bool {
    &&& after.data@.len() == before.data@.len()
    &&& after.wf()
    &&& match r {
        Ok(()) => encodable && before.wrote(&after, bytes),
        Err(ToFromByteError::NotEnoughBytes) => bytes.len() > before.room(),
        Err(ToFromByteError::InvalidValue) => !encodable,
        Err(_) => false,
    }
    &&& encodable && bytes.len() <= before.room() ==> r is Ok
}

/// A type with a binary wire format.
///
/// Each type states its format as spec functions over a model of its values:
/// `encoding` gives the bytes of a value, `parse` what decoding reads from the
/// front of a byte sequence. The two proof functions are the laws every format
/// obeys: decoding an encoding gives the value back and consumes exactly the
/// encoding, whatever follows it; and decoding a proper prefix of an encoding
/// fails with `NotEnoughBytes`. The executable methods are held to these spec
/// functions.
pub trait ToFromBytes<'a>: Sized {
    /// The value a Rust value stands for, independent of its memory layout.
    type Model;

    /// The model of this value.
    spec fn model(&self) -> Self::Model;

    /// The ceiling on the size of an encoding of this type.
    spec fn spec_max_bytes() -> usize;

    /// Whether every length that `m` holds fits in a 4-byte prefix.
    spec fn encodable(m: Self::Model) -> bool;

    /// The wire value of `m`.
    spec fn encoding(m: Self::Model) -> Seq<u8>;

    /// What decoding reads from the front of `data`: the value and the number of bytes
    /// it took, or the error.
    spec fn parse(data: Seq<u8>) -> Result<(Self::Model, nat), ToFromByteError>;

    /// The ceiling stays within `MAX_CEILING`.
    proof fn lemma_max_bytes_bounded()
        ensures
            Self::spec_max_bytes() <= MAX_CEILING,
    ;

    /// Every encoding holds at least one byte.
    proof fn lemma_encoding_nonempty(m: Self::Model)
        ensures
            Self::encoding(m).len() >= 1,
    ;

    /// A value with a length that does not fit its 4-byte prefix has an encoding of more
    /// than `u32::MAX` bytes, so a value within its ceiling is always encodable.
    proof fn lemma_unencodable_is_large(m: Self::Model)
        requires
            !Self::encodable(m),
        ensures
            Self::encoding(m).len() > u32::MAX,
    ;

    /// Decoding an encoding gives the value back and consumes exactly the encoding.
    proof fn lemma_parse_encoding(m: Self::Model, rest: Seq<u8>)
        requires
            Self::encodable(m),
        ensures
            Self::parse(Self::encoding(m) + rest) == Ok::<(Self::Model, nat), ToFromByteError>(
                (m, Self::encoding(m).len()),
            ),
    ;

    /// Decoding a proper prefix of an encoding fails with `NotEnoughBytes`.
    proof fn lemma_parse_truncated(m: Self::Model, n: nat)
        requires
            Self::encodable(m),
            n < Self::encoding(m).len(),
        ensures
            Self::parse(Self::encoding(m).take(n as int)) == Err::<
                (Self::Model, nat),
                ToFromByteError,
            >(ToFromByteError::NotEnoughBytes),
    ;

    /// The ceiling on the size of an encoding of this type.
    fn max_bytes() -> (r: usize)
        ensures
            r == Self::spec_max_bytes(),
    ;

    /// Writes the wire value of `self` at the writer's position.
    fn to_bytes(&self, writer: &mut BytesWriter<'_>) -> (r: Result<(), ToFromByteError>)
        requires
            old(writer).wf(),
        ensures
            final(final(writer).data)@ == final(old(writer).data)@,
            encode_outcome(
                *old(writer),
                *final(writer),
                Self::encodable(self.model()),
                Self::encoding(self.model()),
                r,
            ),
    ;

    /// Reads a value from the reader's position; returns it with the position after it.
    /// A failed read leaves the position where it was.
    fn from_bytes(reader: &mut BytesReader<'a>) -> (r: Result<(Self, usize), ToFromByteError>)
        requires
            old(reader).wf(),
        ensures
            final(reader).data == old(reader).data,
            final(reader).wf(),
            r is Err ==> final(reader).pos == old(reader).pos,
            match Self::parse(old(reader).remaining()) {
                Ok((m, n)) => r matches Ok((v, p)) && v.model() == m && p == old(reader).pos + n
                    && final(reader).pos == p,
                Err(e) => r == Err::<(Self, usize), ToFromByteError>(e),
            },
    ;

    /// The exact length of the wire value of `self` (`usize::MAX` where it does not fit
    /// in a `usize`).
    fn byte_count(&self) -> (r: usize)
        ensures
            r == size_or_max(Self::encoding(self.model()).len()),
    ;
}

} // verus!
