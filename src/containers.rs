use vstd::prelude::*;

use crate::bigendian::{be_bytes, lemma_be_bytes_one, lemma_pow256_values, read_uint, write_uint};
use crate::codec::{size_or_max, ToFromBytes, MAX_CEILING};
use crate::error::ToFromByteError;
use crate::reader::BytesReader;
use crate::writer::{lemma_overwrite_twice, BytesWriter};

verus! {

/// Optional values: a tag byte, `0` for `None` and `1` for `Some`, then the payload
/// where there is one. Any other tag decodes to `InvalidValue`.
impl<'a, T: ToFromBytes<'a>> ToFromBytes<'a> for Option<T> {
    type Model = Option<T::Model>;

    open spec fn model(&self) -> Option<T::Model> {
        match self {
            Some(v) => Some(v.model()),
            None => None,
        }
    }

    /// One byte more than the payload's ceiling, within `MAX_CEILING`.
    open spec fn spec_max_bytes() -> usize {
        if T::spec_max_bytes() < MAX_CEILING {
            (T::spec_max_bytes() + 1) as usize
        } else {
            MAX_CEILING
        }
    }

    open spec fn encodable(m: Option<T::Model>) -> bool {
        match m {
            Some(v) => T::encodable(v),
            None => true,
        }
    }

    open spec fn encoding(m: Option<T::Model>) -> Seq<u8> {
        match m {
            Some(v) => seq![1u8] + T::encoding(v),
            None => seq![0u8],
        }
    }

    open spec fn parse(data: Seq<u8>) -> Result<(Option<T::Model>, nat), ToFromByteError> {
        if data.len() < 1 {
            Err(ToFromByteError::NotEnoughBytes)
        } else if data[0] == 0 {
            Ok((None, 1))
        } else if data[0] == 1 {
            match T::parse(data.skip(1)) {
                Ok((v, n)) => Ok((Some(v), 1 + n)),
                Err(e) => Err(e),
            }
        } else {
            Err(ToFromByteError::InvalidValue)
        }
    }

    proof fn lemma_max_bytes_bounded() {
        T::lemma_max_bytes_bounded();
    }

    proof fn lemma_encoding_nonempty(m: Option<T::Model>) {
    }

    proof fn lemma_unencodable_is_large(m: Option<T::Model>) {
        if let Some(v) = m {
            T::lemma_unencodable_is_large(v);
        }
    }

    proof fn lemma_parse_encoding(m: Option<T::Model>, rest: Seq<u8>) {
        if let Some(v) = m {
            T::lemma_parse_encoding(v, rest);
            assert((seq![1u8] + T::encoding(v) + rest).skip(1) =~= T::encoding(v) + rest);
        }
    }

    proof fn lemma_parse_truncated(m: Option<T::Model>, n: nat) {
        if let Some(v) = m {
            if n >= 1 {
                T::lemma_parse_truncated(v, (n - 1) as nat);
                assert((seq![1u8] + T::encoding(v)).take(n as int).skip(1) =~= T::encoding(v).take(
                    n - 1,
                ));
            }
        }
    }

    fn max_bytes() -> (r: usize) {
        let inner = T::max_bytes();
        if inner < MAX_CEILING {
            inner + 1
        } else {
            MAX_CEILING
        }
    }

    fn to_bytes(&self, writer: &mut BytesWriter<'_>) -> (r: Result<(), ToFromByteError>) {
        proof {
            lemma_pow256_values();
            lemma_be_bytes_one(0);
            lemma_be_bytes_one(1);
        }
        match self {
            None => write_uint(writer, 0, 1),
            Some(v) => {
                let ghost w0 = *writer;
                write_uint(writer, 1, 1)?;
                let ghost w1 = *writer;
                let r = v.to_bytes(writer);
                proof {
                    if r is Ok {
                        lemma_overwrite_twice(
                            w0.data@,
                            w0.pos as int,
                            seq![1u8],
                            T::encoding(v.model()),
                        );
                    }
                }
                r
            },
        }
    }

    fn from_bytes(reader: &mut BytesReader<'a>) -> (r: Result<(Option<T>, usize), ToFromByteError>) {
        let ghost start = reader.remaining();
        let start_pos = reader.pos;
        let tag = read_uint(reader, 1)?;
        proof {
            lemma_pow256_values();
            reveal_with_fuel(crate::bigendian::be_value, 2);
            assert(start.take(1).drop_last() =~= Seq::<u8>::empty());
            assert(reader.remaining() =~= start.skip(1));
        }
        if tag == 0 {
            Ok((None, reader.pos))
        } else if tag == 1 {
            match T::from_bytes(reader) {
                Ok((v, pos)) => Ok((Some(v), pos)),
                Err(e) => {
                    reader.pos = start_pos;
                    Err(e)
                },
            }
        } else {
            reader.pos = start_pos;
            Err(ToFromByteError::InvalidValue)
        }
    }

    fn byte_count(&self) -> (r: usize) {
        match self {
            None => 1,
            Some(v) => {
                let inner = v.byte_count();
                if inner < usize::MAX {
                    inner + 1
                } else {
                    usize::MAX
                }
            },
        }
    }
}

} // verus!
