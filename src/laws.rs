use vstd::prelude::*;
use vstd::utf8::valid_utf8;

use crate::api::{
    decode_exact_result, decode_prefix_result, encode_result, lemma_within_ceiling_encodable,
};
use crate::bigendian::{be_bytes, lemma_be_round_trip, lemma_pow256_values};
use crate::codec::{size_or_max, ToFromBytes};
use crate::error::ToFromByteError;
use crate::strings::string_parse;

verus! {

/// Round trip: where encoding a value succeeds, decoding the bytes it gives yields the
/// value back, and decoding from the front of them consumes exactly all of them.
pub proof fn law_round_trip<'a, T: ToFromBytes<'a>>(m: T::Model)
    requires
        encode_result::<T>(m) is Ok,
    ensures
        decode_exact_result::<T>(encode_result::<T>(m)->Ok_0) == Ok::<T::Model, ToFromByteError>(
            m,
        ),
        decode_prefix_result::<T>(encode_result::<T>(m)->Ok_0) == Ok::<
            (T::Model, nat),
            ToFromByteError,
        >((m, T::encoding(m).len())),
{
    lemma_within_ceiling_encodable::<T>(m);
    T::lemma_parse_encoding(m, Seq::empty());
    assert(T::encoding(m) + Seq::<u8>::empty() =~= T::encoding(m));
}

/// Size accuracy: a value whose size (`byte_count`) is within its type's ceiling is
/// encoded with success, into exactly `byte_count` bytes; in particular no length in it
/// overflows its prefix, so writing it into a buffer with room for `byte_count` bytes
/// succeeds (`encode_outcome`).
pub proof fn law_size_accuracy<'a, T: ToFromBytes<'a>>(m: T::Model)
    requires
        size_or_max(T::encoding(m).len()) <= T::spec_max_bytes(),
    ensures
        size_or_max(T::encoding(m).len()) == T::encoding(m).len(),
        T::encodable(m),
        encode_result::<T>(m) == Ok::<Seq<u8>, ToFromByteError>(T::encoding(m)),
        (encode_result::<T>(m)->Ok_0).len() == size_or_max(T::encoding(m).len()),
{
    T::lemma_max_bytes_bounded();
    lemma_within_ceiling_encodable::<T>(m);
}

/// Truncation safety: decoding any proper prefix of an encoding fails with
/// `NotEnoughBytes`, from the front of a buffer and as a whole buffer alike.
pub proof fn law_truncated_prefix<'a, T: ToFromBytes<'a>>(m: T::Model, n: nat)
    requires
        encode_result::<T>(m) is Ok,
        n < (encode_result::<T>(m)->Ok_0).len(),
    ensures
        decode_prefix_result::<T>((encode_result::<T>(m)->Ok_0).take(n as int)) == Err::<
            (T::Model, nat),
            ToFromByteError,
        >(ToFromByteError::NotEnoughBytes),
        decode_exact_result::<T>((encode_result::<T>(m)->Ok_0).take(n as int)) == Err::<
            T::Model,
            ToFromByteError,
        >(ToFromByteError::NotEnoughBytes),
{
    lemma_within_ceiling_encodable::<T>(m);
    T::lemma_parse_truncated(m, n);
}

/// Trailing-byte strictness: an encoding followed by one more byte is refused as a
/// whole buffer with `TrailingBytes` (where the longer buffer is still within the
/// ceiling).
pub proof fn law_trailing_byte<'a, T: ToFromBytes<'a>>(m: T::Model, extra: u8)
    requires
        encode_result::<T>(m) is Ok,
        T::encoding(m).len() + 1 <= T::spec_max_bytes(),
    ensures
        decode_exact_result::<T>((encode_result::<T>(m)->Ok_0).push(extra)) == Err::<
            T::Model,
            ToFromByteError,
        >(ToFromByteError::TrailingBytes),
{
    lemma_within_ceiling_encodable::<T>(m);
    T::lemma_parse_encoding(m, seq![extra]);
    assert(T::encoding(m) + seq![extra] =~= T::encoding(m).push(extra));
}

/// Tag robustness: an optional value whose tag byte is neither `0` nor `1` decodes to
/// `InvalidValue`, whatever follows the tag.
pub proof fn law_option_bad_tag<'a, T: ToFromBytes<'a>>(tag: u8, rest: Seq<u8>)
    requires
        tag != 0,
        tag != 1,
    ensures
        decode_prefix_result::<Option<T>>(seq![tag] + rest) == Err::<
            (Option<T::Model>, nat),
            ToFromByteError,
        >(ToFromByteError::InvalidValue),
        rest.len() + 1 <= Option::<T>::spec_max_bytes() ==> decode_exact_result::<Option<T>>(
            seq![tag] + rest,
        ) == Err::<Option<T::Model>, ToFromByteError>(ToFromByteError::InvalidValue),
{
    assert((seq![tag] + rest)[0] == tag);
}

/// Boolean robustness: a boolean byte other than `0` and `1` decodes to `InvalidValue`.
pub proof fn law_bool_bad_byte(byte: u8, rest: Seq<u8>)
    requires
        byte > 1,
    ensures
        decode_prefix_result::<bool>(seq![byte] + rest) == Err::<(bool, nat), ToFromByteError>(
            ToFromByteError::InvalidValue,
        ),
{
    assert((seq![byte] + rest)[0] == byte);
}

/// UTF-8 robustness: a length prefix followed by that many bytes that are not valid
/// UTF-8 decodes to `InvalidValue`, whatever follows, as an owned or a borrowed string.
pub proof fn law_invalid_utf8(payload: Seq<u8>, rest: Seq<u8>)
    requires
        !valid_utf8(payload),
        payload.len() <= u32::MAX,
    ensures
        string_parse(be_bytes(payload.len(), 4) + payload + rest) == Err::<
            (Seq<char>, nat),
            ToFromByteError,
        >(ToFromByteError::InvalidValue),
        decode_prefix_result::<String>(be_bytes(payload.len(), 4) + payload + rest) == Err::<
            (Seq<char>, nat),
            ToFromByteError,
        >(ToFromByteError::InvalidValue),
        decode_prefix_result::<&str>(be_bytes(payload.len(), 4) + payload + rest) == Err::<
            (Seq<char>, nat),
            ToFromByteError,
        >(ToFromByteError::InvalidValue),
{
    let data = be_bytes(payload.len(), 4) + payload + rest;
    lemma_pow256_values();
    lemma_be_round_trip(payload.len(), 4);
    assert(data.take(4) =~= be_bytes(payload.len(), 4));
    assert(data.subrange(4, 4 + payload.len() as int) =~= payload);
}

/// Ceiling enforcement: a value whose encoding is larger than its type's ceiling is
/// refused by encoding with `MaxBytesExceeded`, and so is a buffer longer than the
/// ceiling by whole-buffer decoding, and a value that takes more bytes than the
/// ceiling by decoding from the front, whatever the bytes hold.
pub proof fn law_ceiling<'a, T: ToFromBytes<'a>>(m: T::Model, bytes: Seq<u8>)
    ensures
        T::encoding(m).len() > T::spec_max_bytes() ==> encode_result::<T>(m) == Err::<
            Seq<u8>,
            ToFromByteError,
        >(ToFromByteError::MaxBytesExceeded),
        bytes.len() > T::spec_max_bytes() ==> decode_exact_result::<T>(bytes) == Err::<
            T::Model,
            ToFromByteError,
        >(ToFromByteError::MaxBytesExceeded),
        T::parse(bytes) matches Ok((v, n)) && n > T::spec_max_bytes() ==> decode_prefix_result::<
            T,
        >(bytes) == Err::<(T::Model, nat), ToFromByteError>(ToFromByteError::MaxBytesExceeded),
{
}

} // verus!
